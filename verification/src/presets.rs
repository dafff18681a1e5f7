//! Presets: named lists of `/me` `/do` lines, with tags and an order.
use vstd::prelude::*;

use vstd::multiset::Multiset;

use crate::config::join_path;
use crate::error::AppError;
use crate::order::{lex_lt, lex_less, lemma_lex_trans};
use crate::stamp::new_uuid;
pub use crate::stamp::now_iso;
use crate::text::{chars_of, trim, trim_str, str_eq};

verus! {

/// One line of role-play text and its command type (`me`, `do`, `b`, `e`).
#[derive(Debug)]
pub struct TextLine {
    pub text_type: String,
    pub content: String,
}

impl TextLine {
    pub fn copy(&self) -> (r: TextLine)
        ensures
            r == *self,
    {
        TextLine { text_type: self.text_type.clone(), content: self.content.clone() }
    }
}

/// A copy of a list of lines.
pub fn copy_lines(v: &Vec<TextLine>) -> (r: Vec<TextLine>)
    ensures
        r@ == v@,
{
    let mut r: Vec<TextLine> = Vec::new();
    let mut i: usize = 0;
    while i < v.len()
        invariant
            0 <= i <= v.len(),
            r@ == v@.subrange(0, i as int),
        decreases v.len() - i,
    {
        r.push(v[i].copy());
        assert(v@.subrange(0, i + 1) =~= v@.subrange(0, i as int).push(v@[i as int]));
        i = i + 1;
    }
    assert(v@.subrange(0, v.len() as int) =~= v@);
    r
}

/// The command type a line gets when none is given.
pub fn default_type() -> (r: String)
    ensures
        r@ == "me"@,
{
    String::from_str("me")
}


/// A preset.
#[derive(Debug)]
pub struct Preset {
    pub id: String,
    pub name: String,
    pub texts: Vec<TextLine>,
    pub tags: Vec<String>,
    pub sort_order: i64,
    pub created_at: String,
    pub updated_at: String,
}

// ── Identifiers ────────────────────────────────────────────────────────

/// A character allowed in a preset id: `[a-zA-Z0-9_-]`.
pub open spec fn is_id_char(c: char) -> bool {
    ('a' <= c <= 'z') || ('A' <= c <= 'Z') || ('0' <= c <= '9') || c == '_' || c == '-'
}

/// A safe preset id: one or more of the allowed characters.
pub open spec fn safe_id(s: Seq<char>) -> bool {
    s.len() > 0 && forall|i: int| 0 <= i < s.len() ==> is_id_char(#[trigger] s[i])
}

/// Whether `id` matches `^[a-zA-Z0-9_-]+$` (`regex::Regex::is_match`). In
/// this crate's regex syntax `^` and `$` anchor at the ends of the text and
/// the class holds exactly those ASCII characters, so a match is a
/// non-empty text of them.
#[verifier::external_body]
fn is_safe_id(id: &str) -> (r: bool)
    ensures
        r == safe_id(id@),
{
    regex::Regex::new(r"^[a-zA-Z0-9_-]+$").unwrap().is_match(id)
}

/// `预设 ID '<id>' 包含非法字符`.
pub open spec fn bad_id_message(id: Seq<char>) -> Seq<char> {
    "预设 ID '"@ + id + "' 包含非法字符"@
}

/// The trimmed id when it is safe; `BadRequest` otherwise.
pub fn validate_preset_id(id: &str) -> (r: Result<String, AppError>)
    ensures
        safe_id(trim(id@)) ==> (r matches Ok(s) && s@ == trim(id@)),
        !safe_id(trim(id@)) ==> (r matches Err(AppError::BadRequest(m)) && m@ == bad_id_message(id@)),
{
    let safe = trim_str(id);
    let empty = safe.as_str().is_empty();
    if empty || !is_safe_id(safe.as_str()) {
        return Err(AppError::BadRequest(String::from_str("预设 ID '").concat(id).concat("' 包含非法字符")));
    }
    Ok(safe)
}

/// Law (generated ids are valid): every id made by `new_uuid` passes
/// `validate_preset_id` unchanged.
pub proof fn law_uuid_is_safe_id(s: Seq<char>)
    requires
        s.len() == 36,
        forall|i: int| 0 <= i < s.len() ==> crate::stamp::is_lower_hex_or_dash(#[trigger] s[i]),
    ensures
        safe_id(s),
        trim(s) == s,
{
    assert(!crate::text::is_ws(s[0]));
    assert(!crate::text::is_ws(s[s.len() - 1]));
    assert(crate::text::trim_start(s) == s);
    assert(crate::text::trim_end(s) == s);
}

/// The file of a preset: `<dir>/<id>.json`, for a valid id.
pub fn preset_path(presets_dir: &str, id: &str) -> (r: Result<String, AppError>)
    ensures
        safe_id(trim(id@)) ==> (r matches Ok(p) && p@ == join_path(presets_dir@, trim(id@) + ".json"@)),
        !safe_id(trim(id@)) ==> (r matches Err(AppError::BadRequest(m)) && m@ == bad_id_message(id@)),
{
    let safe = validate_preset_id(id)?;
    let name = safe.concat(".json");
    Ok(crate::config::join(presets_dir, name.as_str()))
}

/// The error for a preset that does not exist: `预设 '<id>' 不存在`.
pub fn missing_preset(id: &str) -> (r: AppError)
    ensures
        r matches AppError::NotFound(m) && m@ == "预设 '"@ + id@ + "' 不存在"@,
{
    AppError::NotFound(String::from_str("预设 '").concat(id).concat("' 不存在"))
}

// ── Listing ────────────────────────────────────────────────────────────

/// `p` carries the tag `tag`.
pub open spec fn has_tag(p: Preset, tag: Seq<char>) -> bool {
    exists|i: int| 0 <= i < p.tags@.len() && (#[trigger] p.tags@[i])@ == tag
}

/// The presets that pass the tag filter, in order.
pub open spec fn select_tag(s: Seq<Preset>, tag: Option<Seq<char>>) -> Seq<Preset>
    decreases s.len(),
{
    if s.len() == 0 {
        s
    } else {
        let r = select_tag(s.drop_last(), tag);
        match tag {
            Some(t) => if has_tag(s.last(), t) {
                r.push(s.last())
            } else {
                r
            },
            None => r.push(s.last()),
        }
    }
}

/// `a` sorts before `b`: by `sort_order`, then by name.
pub open spec fn preset_lt(a: Preset, b: Preset) -> bool {
    a.sort_order < b.sort_order || (a.sort_order == b.sort_order && lex_lt(a.name@, b.name@))
}

pub open spec fn sorted(s: Seq<Preset>) -> bool {
    forall|i: int, j: int| 0 <= i < j < s.len() ==> !preset_lt(#[trigger] s[j], #[trigger] s[i])
}

proof fn lemma_preset_lt_trans(a: Preset, b: Preset, c: Preset)
    requires
        preset_lt(a, b),
        preset_lt(b, c),
    ensures
        preset_lt(a, c),
{
    if a.sort_order == b.sort_order && b.sort_order == c.sort_order {
        lemma_lex_trans(a.name@, b.name@, c.name@);
    }
}

fn has_tag_exec(p: &Preset, tag: &str) -> (r: bool)
    ensures
        r == has_tag(*p, tag@),
{
    let mut i: usize = 0;
    while i < p.tags.len()
        invariant
            0 <= i <= p.tags.len(),
            forall|k: int| 0 <= k < i ==> (#[trigger] p.tags@[k])@ != tag@,
        decreases p.tags.len() - i,
    {
        if str_eq(p.tags[i].as_str(), tag) {
            return true;
        }
        i = i + 1;
    }
    false
}

fn preset_less(a: &Preset, b: &Preset) -> (r: bool)
    ensures
        r == preset_lt(*a, *b),
{
    if a.sort_order != b.sort_order {
        a.sort_order < b.sort_order
    } else {
        lex_less(&chars_of(a.name.as_str()), &chars_of(b.name.as_str()))
    }
}

/// The presets that carry `tag` (all of them when there is none), sorted
/// by `sort_order` and then by name.
pub fn filter_and_sort(presets: Vec<Preset>, tag: Option<&str>) -> (r: Vec<Preset>)
    ensures
        sorted(r@),
        r@.to_multiset() == select_tag(
            presets@,
            match tag {
                Some(t) => Some(t@),
                None => None,
            },
        ).to_multiset(),
{
    broadcast use {vstd::seq_lib::group_to_multiset_ensures, vstd::multiset::group_multiset_axioms};

    let ghost tg = match tag {
        Some(t) => Some(t@),
        None => None::<Seq<char>>,
    };
    let ghost input = presets@;
    let mut rest = presets;
    let mut r: Vec<Preset> = Vec::new();
    let ghost mut taken: Seq<Preset> = Seq::empty();
    proof {
        vstd::multiset::lemma_multiset_empty_len(r@.to_multiset());
        assert(r@.to_multiset() =~= Multiset::<Preset>::empty());
        assert(input.subrange(0, 0) =~= Seq::<Preset>::empty());
        vstd::multiset::lemma_multiset_empty_len(select_tag(Seq::<Preset>::empty(), tg).to_multiset());
        assert(select_tag(Seq::<Preset>::empty(), tg).to_multiset() =~= Multiset::<Preset>::empty());
    }
    // Take the presets out one by one, from the last.
    let n = rest.len();
    let mut k = n;
    assert(input.subrange(0, n as int) =~= input);
    while k > 0
        invariant
            0 <= k <= n,
            n == input.len(),
            rest@ == input.subrange(0, k as int),
            tg == match tag {
                Some(t) => Some(t@),
                None => None::<Seq<char>>,
            },
            sorted(r@),
            select_tag(input, tg).to_multiset() == select_tag(input.subrange(0, k as int), tg).to_multiset().add(
                r@.to_multiset(),
            ),
        decreases k,
    {
        let p = rest.pop().unwrap();
        let ghost pre = input.subrange(0, k - 1);
        proof {
            assert(input.subrange(0, k as int).drop_last() =~= pre);
            assert(input.subrange(0, k as int).last() == p);
        }
        let keep = match tag {
            Some(t) => has_tag_exec(&p, t),
            None => true,
        };
        if keep {
            let mut pos: usize = 0;
            while pos < r.len() && !preset_less(&p, &r[pos])
                invariant
                    0 <= pos <= r.len(),
                    forall|i: int| 0 <= i < pos ==> !preset_lt(p, #[trigger] r@[i]),
                decreases r.len() - pos,
            {
                pos = pos + 1;
            }
            let ghost r0 = r@;
            r.insert(pos, p);
            proof {
                assert forall|i: int, j: int| 0 <= i < j < r@.len() implies !preset_lt(
                    #[trigger] r@[j],
                    #[trigger] r@[i],
                ) by {
                    if i < pos && j == pos {
                    } else if i == pos && j > pos {
                        if preset_lt(r0[j - 1], p) {
                            assert(preset_lt(p, r0[pos as int]));
                            lemma_preset_lt_trans(r0[j - 1], p, r0[pos as int]);
                            if j - 1 == pos {
                                crate::order::lemma_lex_irrefl(r0[pos as int].name@);
                            }
                            assert(!preset_lt(r0[j - 1], r0[pos as int]));
                        }
                    } else if i < pos && j > pos {
                        assert(r@[i] == r0[i]);
                        assert(r@[j] == r0[j - 1]);
                    } else if j < pos {
                        assert(r@[i] == r0[i]);
                        assert(r@[j] == r0[j]);
                    } else {
                        assert(r@[i] == r0[i - 1]);
                        assert(r@[j] == r0[j - 1]);
                    }
                }
                assert(r@ == r0.insert(pos as int, p));
                vstd::seq_lib::to_multiset_insert(r0, pos as int, p);
                assert(r@.to_multiset() == r0.to_multiset().insert(p));
                assert(select_tag(input.subrange(0, k as int), tg) == select_tag(pre, tg).push(p));
                vstd::seq_lib::to_multiset_build(select_tag(pre, tg), p);
                assert(select_tag(input.subrange(0, k as int), tg).to_multiset() =~= select_tag(pre, tg).to_multiset().insert(p));
            }
        } else {
            proof {
                assert(select_tag(input.subrange(0, k as int), tg) == select_tag(pre, tg));
            }
        }
        k = k - 1;
    }
    proof {
        assert(input.subrange(0, 0) =~= Seq::<Preset>::empty());
        vstd::multiset::lemma_multiset_empty_len(select_tag(Seq::<Preset>::empty(), tg).to_multiset());
        assert(select_tag(Seq::<Preset>::empty(), tg).to_multiset() =~= Multiset::<Preset>::empty());
        assert(select_tag(input, tg).to_multiset() =~= r@.to_multiset());
    }
    r
}

// ── Creating and updating ──────────────────────────────────────────────

/// The fields an update sets (`None`: left as is).
#[derive(Debug)]
pub struct PresetPatch {
    pub name: Option<String>,
    pub texts: Option<Vec<TextLine>>,
    pub tags: Option<Vec<String>>,
    pub sort_order: Option<i64>,
}

/// A new preset with the given fields, stamped `now` and identified by `id`.
pub fn new_preset(id: String, name: Option<&str>, texts: Vec<TextLine>, tags: Vec<String>, now: String) -> (r: Preset)
    ensures
        r.id == id,
        r.name@ == match name {
            Some(n) => n@,
            None => "未命名"@,
        },
        r.texts == texts,
        r.tags == tags,
        r.sort_order == 0,
        r.created_at == now,
        r.updated_at == now,
{
    let nm = match name {
        Some(n) => String::from_str(n),
        None => String::from_str("未命名"),
    };
    Preset {
        id,
        name: nm,
        texts,
        tags,
        sort_order: 0,
        created_at: now.clone(),
        updated_at: now,
    }
}

/// A new preset with a fresh id, stamped with the current time.
pub fn create_preset(name: Option<&str>, texts: Vec<TextLine>, tags: Vec<String>) -> (r: Preset)
    ensures
        safe_id(r.id@),
        r.name@ == match name {
            Some(n) => n@,
            None => "未命名"@,
        },
        r.texts == texts,
        r.tags == tags,
        r.sort_order == 0,
        r.created_at == r.updated_at,
{
    let id = new_uuid();
    proof {
        law_uuid_is_safe_id(id@);
    }
    let now = now_iso();
    new_preset(id, name, texts, tags, now)
}

/// Apply an update, stamped `now`.
pub fn apply_update(preset: &mut Preset, patch: PresetPatch, now: String)
    ensures
        final(preset).id == old(preset).id,
        final(preset).created_at == old(preset).created_at,
        final(preset).name == match patch.name {
            Some(n) => n,
            None => old(preset).name,
        },
        final(preset).texts == match patch.texts {
            Some(t) => t,
            None => old(preset).texts,
        },
        final(preset).tags == match patch.tags {
            Some(t) => t,
            None => old(preset).tags,
        },
        final(preset).sort_order == match patch.sort_order {
            Some(o) => o,
            None => old(preset).sort_order,
        },
        final(preset).updated_at == now,
{
    match patch.name {
        Some(n) => preset.name = n,
        None => {},
    }
    match patch.texts {
        Some(t) => preset.texts = t,
        None => {},
    }
    match patch.tags {
        Some(t) => preset.tags = t,
        None => {},
    }
    match patch.sort_order {
        Some(o) => preset.sort_order = o,
        None => {},
    }
    preset.updated_at = now;
}

/// Apply an update, stamped with the current time.
pub fn update_preset(preset: &mut Preset, patch: PresetPatch)
    ensures
        final(preset).id == old(preset).id,
        final(preset).created_at == old(preset).created_at,
        final(preset).name == match patch.name {
            Some(n) => n,
            None => old(preset).name,
        },
        final(preset).texts == match patch.texts {
            Some(t) => t,
            None => old(preset).texts,
        },
        final(preset).tags == match patch.tags {
            Some(t) => t,
            None => old(preset).tags,
        },
        final(preset).sort_order == match patch.sort_order {
            Some(o) => o,
            None => old(preset).sort_order,
        },
{
    let now = now_iso();
    apply_update(preset, patch, now);
}

} // verus!
