//! The HTTP API's own rules: who may call it, and the request types with
//! the decisions each route makes.
use vstd::prelude::*;

use crate::text::{chars_of, string_of, slice_chars, trim, trim_chars, trim_str, is_prefix, has_prefix};
use crate::yaml::{YamlNode, spec_get_str, get_str};

pub mod ai;
pub mod presets;
pub mod sender;
pub mod settings;

verus! {

/// Name for the name/value pairs that `url::form_urlencoded::parse` reads
/// from a query string, in order, percent- and plus-decoded.
pub uninterp spec fn query_pairs(query: Seq<char>) -> Seq<(Seq<char>, Seq<char>)>;

pub open spec fn pairs_view(v: Seq<(String, String)>) -> Seq<(Seq<char>, Seq<char>)> {
    v.map_values(|p: (String, String)| (p.0@, p.1@))
}

/// The pairs of a query string (`url::form_urlencoded::parse` over its
/// bytes, each name and value turned into a `String`).
#[verifier::external_body]
fn parse_query(query: &str) -> (r: Vec<(String, String)>)
    ensures
        pairs_view(r@) == query_pairs(query@),
{
    url::form_urlencoded::parse(query.as_bytes()).map(|(k, v)| (k.to_string(), v.to_string())).collect()
}

/// Byte-wise comparison that looks at every byte, whatever it finds.
pub fn ct_eq(a: &[u8], b: &[u8]) -> (r: bool)
    ensures
        r == (a@ == b@),
{
    if a.len() != b.len() {
        return false;
    }
    let mut acc: u8 = 0;
    let mut i: usize = 0;
    while i < a.len()
        invariant
            a.len() == b.len(),
            0 <= i <= a.len(),
            (acc == 0) == (forall|j: int| 0 <= j < i ==> a@[j] == b@[j]),
        decreases a.len() - i,
    {
        let x = a[i];
        let y = b[i];
        let next = acc | (x ^ y);
        assert((next == 0) == (acc == 0 && x == y)) by (bit_vector)
            requires
                next == acc | (x ^ y),
        ;
        acc = next;
        i = i + 1;
    }
    if acc == 0 {
        assert(a@ =~= b@);
    }
    acc == 0
}

/// The first value given to `vs_token` or `token`, or `""`.
pub open spec fn query_token(pairs: Seq<(Seq<char>, Seq<char>)>) -> Seq<char>
    decreases pairs.len(),
{
    if pairs.len() == 0 {
        Seq::empty()
    } else if pairs[0].0 == "vs_token"@ || pairs[0].0 == "token"@ {
        pairs[0].1
    } else {
        query_token(pairs.drop_first())
    }
}

/// The token a request offers: after `Bearer ` in its `Authorization`
/// header, trimmed; without such a header, the `vs_token` or `token`
/// query parameter.
pub open spec fn offered_token(auth_header: Seq<char>, query: Seq<char>) -> Seq<char> {
    if is_prefix("Bearer "@, auth_header) {
        trim(auth_header.subrange(7, auth_header.len() as int))
    } else {
        query_token(query_pairs(query))
    }
}

/// Whether a request may use the API: always when no token is configured
/// (`server.token`, trimmed, is empty), else when it offers that token.
pub open spec fn spec_authorized(cfg: crate::yaml::Yaml, auth_header: Seq<char>, query: Seq<char>) -> bool {
    let token = trim(spec_get_str(cfg, "server"@, "token"@));
    token.len() == 0 || offered_token(auth_header, query) == token
}

fn query_token_exec(pairs: &Vec<(String, String)>) -> (r: String)
    ensures
        r@ == query_token(pairs_view(pairs@)),
{
    let ghost pv = pairs_view(pairs@);
    let mut i: usize = 0;
    assert(pv.subrange(0, pv.len() as int) =~= pv);
    while i < pairs.len()
        invariant
            0 <= i <= pairs.len(),
            pv == pairs_view(pairs@),
            query_token(pv) == query_token(pv.subrange(i as int, pv.len() as int)),
        decreases pairs.len() - i,
    {
        let ghost rest = pv.subrange(i as int, pv.len() as int);
        assert(rest[0] == (pairs@[i as int].0@, pairs@[i as int].1@));
        let k = pairs[i].0.as_str();
        if crate::text::str_eq(k, "vs_token") || crate::text::str_eq(k, "token") {
            return pairs[i].1.clone();
        }
        assert(rest.drop_first() =~= pv.subrange(i + 1, pv.len() as int));
        i = i + 1;
    }
    assert(pv.subrange(i as int, pv.len() as int).len() == 0);
    String::new()
}

/// The API's access check (see [`spec_authorized`]); the offered token is
/// compared byte by byte in constant time.
pub fn authorize(cfg: &YamlNode, auth_header: &str, query: &str) -> (r: bool)
    ensures
        r == spec_authorized(cfg@, auth_header@, query@),
{
    let token = trim_str(get_str(cfg, "server", "token"));
    if token.as_str().is_empty() {
        return true;
    }
    let h = chars_of(auth_header);
    let prefix = chars_of("Bearer ");
    proof {
        reveal_strlit("Bearer ");
    }
    let offered = if has_prefix(&h, &prefix) {
        string_of(&trim_chars(&slice_chars(&h, 7, h.len())))
    } else {
        query_token_exec(&parse_query(query))
    };
    let same = ct_eq(offered.as_str().as_bytes(), token.as_str().as_bytes());
    proof {
        vstd::utf8::encode_utf8_decode_utf8(offered@);
        vstd::utf8::encode_utf8_decode_utf8(token@);
    }
    same
}

} // verus!
