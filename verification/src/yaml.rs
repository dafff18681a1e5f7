//! A YAML document tree and the operations the configuration needs on it:
//! typed lookups and the deep merge used for partial updates.
use vstd::prelude::*;

use crate::text::str_eq;

verus! {

/// A YAML value, as the configuration file holds it.
///
/// Numbers keep the split of the YAML number type: non-negative integers,
/// negative integers, and floating-point numbers kept by their decimal text.
#[derive(Debug)]
pub enum YamlNode {
    Null,
    Bool(bool),
    PosInt(u64),
    NegInt(i64),
    Float(String),
    Str(String),
    List(Vec<YamlNode>),
    Mapping(Vec<(YamlNode, YamlNode)>),
}

/// The mathematical value of a [`YamlNode`].
pub enum Yaml {
    Null,
    Bool(bool),
    PosInt(u64),
    NegInt(i64),
    Float(Seq<char>),
    Str(Seq<char>),
    List(Seq<Yaml>),
    Mapping(Seq<(Yaml, Yaml)>),
}

pub open spec fn ym(n: YamlNode) -> Yaml
    decreases n,
{
    match n {
        YamlNode::Null => Yaml::Null,
        YamlNode::Bool(b) => Yaml::Bool(b),
        YamlNode::PosInt(u) => Yaml::PosInt(u),
        YamlNode::NegInt(i) => Yaml::NegInt(i),
        YamlNode::Float(s) => Yaml::Float(s@),
        YamlNode::Str(s) => Yaml::Str(s@),
        YamlNode::List(v) => Yaml::List(list_view(v@)),
        YamlNode::Mapping(m) => Yaml::Mapping(map_view(m@)),
    }
}

pub open spec fn list_view(s: Seq<YamlNode>) -> Seq<Yaml>
    decreases s,
{
    if s.len() == 0 {
        seq![]
    } else {
        list_view(s.subrange(0, s.len() - 1)).push(ym(s[s.len() - 1]))
    }
}

pub open spec fn map_view(s: Seq<(YamlNode, YamlNode)>) -> Seq<(Yaml, Yaml)>
    decreases s,
{
    if s.len() == 0 {
        seq![]
    } else {
        map_view(s.subrange(0, s.len() - 1)).push(
            (ym(s[s.len() - 1].0), ym(s[s.len() - 1].1)),
        )
    }
}

impl View for YamlNode {
    type V = Yaml;

    open spec fn view(&self) -> Yaml {
        ym(*self)
    }
}


pub proof fn lemma_list_view(s: Seq<YamlNode>)
    ensures
        list_view(s).len() == s.len(),
        forall|i: int| 0 <= i < s.len() ==> #[trigger] list_view(s)[i] == ym(s[i]),
    decreases s.len(),
{
    if s.len() > 0 {
        let t = s.subrange(0, s.len() - 1);
        lemma_list_view(t);
        assert forall|i: int| 0 <= i < s.len() implies #[trigger] list_view(s)[i] == ym(s[i]) by {
            if i < s.len() - 1 {
                assert(t[i] == s[i]);
            }
        }
    }
}

pub proof fn lemma_map_view(s: Seq<(YamlNode, YamlNode)>)
    ensures
        map_view(s).len() == s.len(),
        forall|i: int|
            0 <= i < s.len() ==> #[trigger] map_view(s)[i] == (ym(s[i].0), ym(s[i].1)),
    decreases s.len(),
{
    if s.len() > 0 {
        let t = s.subrange(0, s.len() - 1);
        lemma_map_view(t);
        assert forall|i: int| 0 <= i < s.len() implies #[trigger] map_view(s)[i] == (
            ym(s[i].0),
            ym(s[i].1),
        ) by {
            if i < s.len() - 1 {
                assert(t[i] == s[i]);
            }
        }
    }
}

/// Two entry lists with pointwise equal views have equal views.
pub proof fn lemma_map_view_ext(a: Seq<(YamlNode, YamlNode)>, b: Seq<(YamlNode, YamlNode)>)
    requires
        a.len() == b.len(),
        forall|i: int|
            0 <= i < a.len() ==> ym(#[trigger] a[i].0) == ym(b[i].0) && ym(a[i].1) == ym(b[i].1),
    ensures
        map_view(a) == map_view(b),
{
    lemma_map_view(a);
    lemma_map_view(b);
    assert(map_view(a) =~= map_view(b));
}

pub proof fn lemma_list_view_ext(a: Seq<YamlNode>, b: Seq<YamlNode>)
    requires
        a.len() == b.len(),
        forall|i: int| 0 <= i < a.len() ==> ym(#[trigger] a[i]) == ym(b[i]),
    ensures
        list_view(a) == list_view(b),
{
    lemma_list_view(a);
    lemma_list_view(b);
    assert(list_view(a) =~= list_view(b));
}

// ── Lookup ─────────────────────────────────────────────────────────────

/// The index of the first entry whose key is `k`.
pub open spec fn find_key(m: Seq<(Yaml, Yaml)>, k: Yaml) -> Option<int>
    decreases m.len(),
{
    if m.len() == 0 {
        None
    } else if m[0].0 == k {
        Some(0)
    } else {
        match find_key(m.drop_first(), k) {
            Some(i) => Some(i + 1),
            None => None,
        }
    }
}

pub proof fn lemma_find_key(m: Seq<(Yaml, Yaml)>, k: Yaml)
    ensures
        match find_key(m, k) {
            Some(i) => 0 <= i < m.len() && m[i].0 == k && forall|j: int|
                0 <= j < i ==> #[trigger] m[j].0 != k,
            None => forall|j: int| 0 <= j < m.len() ==> #[trigger] m[j].0 != k,
        },
    decreases m.len(),
{
    if m.len() > 0 && m[0].0 != k {
        lemma_find_key(m.drop_first(), k);
        match find_key(m.drop_first(), k) {
            Some(i) => {
                assert forall|j: int| 0 <= j < i + 1 implies #[trigger] m[j].0 != k by {
                    if j > 0 {
                        assert(m[j] == m.drop_first()[j - 1]);
                    }
                }
            },
            None => {
                assert forall|j: int| 0 <= j < m.len() implies #[trigger] m[j].0 != k by {
                    if j > 0 {
                        assert(m[j] == m.drop_first()[j - 1]);
                    }
                }
            },
        }
    }
}

pub proof fn lemma_find_key_is(m: Seq<(Yaml, Yaml)>, k: Yaml, i: int)
    requires
        0 <= i <= m.len(),
        forall|j: int| 0 <= j < i ==> #[trigger] m[j].0 != k,
        i < m.len() ==> m[i].0 == k,
    ensures
        find_key(m, k) == (if i < m.len() { Some(i) } else { None::<int> }),
{
    lemma_find_key(m, k);
}

/// Finding a key is unaffected by replacing the value of an entry.
pub proof fn lemma_find_key_update(m: Seq<(Yaml, Yaml)>, i: int, v: Yaml, k: Yaml)
    requires
        0 <= i < m.len(),
    ensures
        find_key(m.update(i, (m[i].0, v)), k) == find_key(m, k),
{
    let u = m.update(i, (m[i].0, v));
    lemma_find_key(m, k);
    match find_key(m, k) {
        Some(f) => {
            assert forall|j: int| 0 <= j < f implies #[trigger] u[j].0 != k by {
                assert(u[j].0 == m[j].0);
            }
            lemma_find_key_is(u, k, f);
        },
        None => {
            assert forall|j: int| 0 <= j < u.len() implies #[trigger] u[j].0 != k by {
                assert(u[j].0 == m[j].0);
            }
            lemma_find_key_is(u, k, u.len() as int);
        },
    }
}

/// Finding a present key is unaffected by appending an entry.
pub proof fn lemma_find_key_push(m: Seq<(Yaml, Yaml)>, e: (Yaml, Yaml), k: Yaml)
    ensures
        find_key(m, k) is Some ==> find_key(m.push(e), k) == find_key(m, k),
        find_key(m, k) is None ==> find_key(m.push(e), k) == (if e.0 == k {
            Some(m.len() as int)
        } else {
            None::<int>
        }),
{
    let u = m.push(e);
    lemma_find_key(m, k);
    match find_key(m, k) {
        Some(f) => {
            assert forall|j: int| 0 <= j < f implies #[trigger] u[j].0 != k by {
                assert(u[j] == m[j]);
            }
            lemma_find_key_is(u, k, f);
        },
        None => {
            assert forall|j: int| 0 <= j < m.len() implies #[trigger] u[j].0 != k by {
                assert(u[j] == m[j]);
            }
            if e.0 == k {
                lemma_find_key_is(u, k, m.len() as int);
            } else {
                lemma_find_key_is(u, k, u.len() as int);
            }
        },
    }
}

/// `Value::get(key)`: the value under the string key `key` of a mapping.
pub open spec fn get(n: Yaml, key: Seq<char>) -> Option<Yaml> {
    match n {
        Yaml::Mapping(m) => match find_key(m, Yaml::Str(key)) {
            Some(i) => Some(m[i].1),
            None => None,
        },
        _ => None,
    }
}

/// The value at `section.key`.
pub open spec fn get2(n: Yaml, section: Seq<char>, key: Seq<char>) -> Option<Yaml> {
    match get(n, section) {
        Some(s) => get(s, key),
        None => None,
    }
}

// ── Deep merge ─────────────────────────────────────────────────────────

/// Deep merge of `patch` into `base`: mappings merge key by key, in the
/// patch's order; anything else is replaced by the patch.
pub open spec fn merge(base: Yaml, patch: Yaml) -> Yaml
    decreases patch,
{
    match patch {
        Yaml::Mapping(p) => match base {
            Yaml::Mapping(b) => Yaml::Mapping(merge_entries(b, p)),
            _ => patch,
        },
        _ => patch,
    }
}

/// The entries of `b` after the entries of `p` were merged in, in order.
/// A key already present keeps its place; a new key is appended.
pub open spec fn merge_entries(b: Seq<(Yaml, Yaml)>, p: Seq<(Yaml, Yaml)>) -> Seq<(Yaml, Yaml)>
    decreases p,
{
    if p.len() == 0 {
        b
    } else {
        let b2 = merge_entries(b, p.subrange(0, p.len() - 1));
        let k = p[p.len() - 1].0;
        let v = p[p.len() - 1].1;
        match find_key(b2, k) {
            Some(i) => if 0 <= i < b2.len() {
                b2.update(i, (b2[i].0, merge(b2[i].1, v)))
            } else {
                b2
            },
            None => b2.push((k, v)),
        }
    }
}


pub proof fn lemma_merge_entries_step(b: Seq<(Yaml, Yaml)>, p: Seq<(Yaml, Yaml)>, j: int)
    requires
        0 <= j < p.len(),
    ensures
        merge_entries(b, p.subrange(0, j + 1)) == ({
            let b2 = merge_entries(b, p.subrange(0, j));
            match find_key(b2, p[j].0) {
                Some(i) => if 0 <= i < b2.len() {
                    b2.update(i, (b2[i].0, merge(b2[i].1, p[j].1)))
                } else {
                    b2
                },
                None => b2.push((p[j].0, p[j].1)),
            }
        }),
{
    let q = p.subrange(0, j + 1);
    assert(q.subrange(0, q.len() - 1) =~= p.subrange(0, j));
    assert(q[q.len() - 1] == p[j]);
}

/// No two entries of a mapping share a key (what a YAML mapping guarantees).
pub open spec fn keys_unique(m: Seq<(Yaml, Yaml)>) -> bool {
    forall|i: int, j: int| 0 <= i < j < m.len() ==> #[trigger] m[i].0 != #[trigger] m[j].0
}

/// What a lookup in `merge_entries(b, p)` gives, from lookups in `b` and `p`.
pub open spec fn merged_lookup(b: Seq<(Yaml, Yaml)>, p: Seq<(Yaml, Yaml)>, k: Yaml) -> Option<Yaml> {
    match find_key(p, k) {
        Some(pi) => Some(
            match find_key(b, k) {
                Some(bi) => merge(b[bi].1, p[pi].1),
                None => p[pi].1,
            },
        ),
        None => match find_key(b, k) {
            Some(bi) => Some(b[bi].1),
            None => None,
        },
    }
}

pub open spec fn lookup(m: Seq<(Yaml, Yaml)>, k: Yaml) -> Option<Yaml> {
    match find_key(m, k) {
        Some(i) => Some(m[i].1),
        None => None,
    }
}

proof fn lemma_merge_entries_lookup(b: Seq<(Yaml, Yaml)>, p: Seq<(Yaml, Yaml)>, k: Yaml, j: int)
    requires
        0 <= j <= p.len(),
        keys_unique(p),
    ensures
        lookup(merge_entries(b, p.subrange(0, j)), k) == merged_lookup(b, p.subrange(0, j), k),
    decreases j,
{
    let pj = p.subrange(0, j);
    if j == 0 {
        assert(pj =~= Seq::<(Yaml, Yaml)>::empty());
        assert(merge_entries(b, pj) == b);
    } else {
        lemma_merge_entries_lookup(b, p, k, j - 1);
        lemma_merge_entries_step(b, p, j - 1);
        let prev = p.subrange(0, j - 1);
        let b2 = merge_entries(b, prev);
        let e = p[j - 1];
        assert(pj =~= prev.push(e));
        lemma_find_key_push(prev, e, k);
        lemma_find_key(prev, k);
        lemma_find_key(b2, e.0);
        lemma_find_key(b2, k);
        if e.0 == k {
            // `k` does not occur earlier in the patch.
            assert forall|i: int| 0 <= i < prev.len() implies #[trigger] prev[i].0 != k by {
                assert(prev[i] == p[i]);
            }
            lemma_find_key_is(prev, k, prev.len() as int);
            match find_key(b2, e.0) {
                Some(i) => {
                    lemma_find_key_update(b2, i, merge(b2[i].1, e.1), k);
                },
                None => {
                    lemma_find_key_push(b2, e, k);
                },
            }
        } else {
            match find_key(b2, e.0) {
                Some(i) => {
                    lemma_find_key_update(b2, i, merge(b2[i].1, e.1), k);
                    let u = b2.update(i, (b2[i].0, merge(b2[i].1, e.1)));
                    match find_key(b2, k) {
                        Some(f) => {
                            assert(f != i);
                            assert(u[f] == b2[f]);
                        },
                        None => {},
                    }
                },
                None => {
                    lemma_find_key_push(b2, e, k);
                    match find_key(b2, k) {
                        Some(f) => {
                            assert(b2.push(e)[f] == b2[f]);
                        },
                        None => {},
                    }
                },
            }
            match find_key(prev, k) {
                Some(f) => {
                    assert(prev.push(e)[f] == prev[f]);
                },
                None => {},
            }
        }
    }
}

/// Law (deep merge, by key): after `patch` is merged into the mapping
/// `base`, a key that the patch sets holds the old value merged with the
/// patch's value (or the patch's value if the key was new), and a key that
/// the patch does not mention keeps its old value.
pub proof fn law_merge_lookup(b: Seq<(Yaml, Yaml)>, p: Seq<(Yaml, Yaml)>, key: Seq<char>)
    requires
        keys_unique(p),
    ensures
        get(merge(Yaml::Mapping(b), Yaml::Mapping(p)), key) == match get(Yaml::Mapping(p), key) {
            Some(pv) => Some(
                match get(Yaml::Mapping(b), key) {
                    Some(bv) => merge(bv, pv),
                    None => pv,
                },
            ),
            None => get(Yaml::Mapping(b), key),
        },
{
    lemma_merge_entries_lookup(b, p, Yaml::Str(key), p.len() as int);
    assert(p.subrange(0, p.len() as int) =~= p);
}

/// The patch that sets `section.key` to `v` and nothing else.
pub open spec fn single_patch(section: Seq<char>, key: Seq<char>, v: Yaml) -> Yaml {
    Yaml::Mapping(seq![(Yaml::Str(section), Yaml::Mapping(seq![(Yaml::Str(key), v)]))])
}

proof fn lemma_single_lookup(k: Yaml, v: Yaml, q: Yaml)
    ensures
        lookup(seq![(k, v)], q) == (if q == k { Some(v) } else { None::<Yaml> }),
{
    let m = seq![(k, v)];
    if q == k {
        lemma_find_key_is(m, q, 0);
    } else {
        lemma_find_key_is(m, q, 1);
    }
}

proof fn lemma_merge_one_key(base: Yaml, k: Seq<char>, v: Yaml, q: Seq<char>)
    ensures
        get(merge(base, Yaml::Mapping(seq![(Yaml::Str(k), v)])), q) == if q == k {
            Some(
                match get(base, k) {
                    Some(bv) => if base is Mapping {
                        merge(bv, v)
                    } else {
                        v
                    },
                    None => v,
                },
            )
        } else {
            if base is Mapping {
                get(base, q)
            } else {
                None::<Yaml>
            }
        },
{
    let m = seq![(Yaml::Str(k), v)];
    lemma_single_lookup(Yaml::Str(k), v, Yaml::Str(q));
    assert(keys_unique(m));
    match base {
        Yaml::Mapping(b) => {
            law_merge_lookup(b, m, q);
        },
        _ => {},
    }
}

/// Law (read after write): after a partial update that sets `section.key`
/// to a value that is not a mapping, reading `section.key` gives that value,
/// whatever the configuration held before.
pub proof fn law_update_read_back(cfg: Yaml, section: Seq<char>, key: Seq<char>, v: Yaml)
    requires
        !(v is Mapping),
    ensures
        get2(merge(cfg, single_patch(section, key, v)), section, key) == Some(v),
{
    let inner = Yaml::Mapping(seq![(Yaml::Str(key), v)]);
    lemma_merge_one_key(cfg, section, inner, section);
    let sec = get(merge(cfg, single_patch(section, key, v)), section).unwrap();
    match get(cfg, section) {
        Some(bv) => {
            if cfg is Mapping {
                lemma_merge_one_key(bv, key, v, key);
            } else {
                lemma_merge_one_key(Yaml::Null, key, v, key);
            }
        },
        None => {
            lemma_merge_one_key(Yaml::Null, key, v, key);
        },
    }
}

/// Law (frame): a partial update of `section.key` leaves every other
/// `section2.key2` as it was.
pub proof fn law_update_frame(
    cfg: Yaml,
    section: Seq<char>,
    key: Seq<char>,
    v: Yaml,
    section2: Seq<char>,
    key2: Seq<char>,
)
    requires
        section2 != section || key2 != key,
    ensures
        get2(merge(cfg, single_patch(section, key, v)), section2, key2) == get2(cfg, section2, key2),
{
    let inner = Yaml::Mapping(seq![(Yaml::Str(key), v)]);
    lemma_merge_one_key(cfg, section, inner, section2);
    if section2 == section {
        match get(cfg, section) {
            Some(bv) => {
                if cfg is Mapping {
                    lemma_merge_one_key(bv, key, v, key2);
                } else {
                    lemma_merge_one_key(Yaml::Null, key, v, key2);
                }
            },
            None => {
                lemma_merge_one_key(Yaml::Null, key, v, key2);
            },
        }
    }
}

/// Law (read after a section write): after a partial update that writes
/// the entries `s` (distinct keys) into `section`, reading `section.key`
/// for a key that `s` sets to a value that is not a mapping gives that
/// value, whatever the configuration held before.
pub proof fn law_section_write_read_back(cfg: Yaml, section: Seq<char>, s: Seq<(Yaml, Yaml)>, key: Seq<char>)
    requires
        keys_unique(s),
        lookup(s, Yaml::Str(key)) matches Some(v) && !(v is Mapping),
    ensures
        get2(merge(cfg, Yaml::Mapping(seq![(Yaml::Str(section), Yaml::Mapping(s))])), section, key)
            == lookup(s, Yaml::Str(key)),
{
    let inner = Yaml::Mapping(s);
    let v = lookup(s, Yaml::Str(key))->0;
    lemma_merge_one_key(cfg, section, inner, section);
    let sec = match get(cfg, section) {
        Some(bv) => if cfg is Mapping { merge(bv, inner) } else { inner },
        None => inner,
    };
    assert(get(merge(cfg, Yaml::Mapping(seq![(Yaml::Str(section), inner)])), section) == Some(sec));
    match sec {
        Yaml::Mapping(m) => {
            if sec == inner {
                assert(get(sec, key) == lookup(s, Yaml::Str(key)));
            } else {
                let bv = get(cfg, section)->0;
                match bv {
                    Yaml::Mapping(b) => {
                        law_merge_lookup(b, s, key);
                        assert(get(inner, key) == Some(v));
                        match get(bv, key) {
                            Some(old) => {
                                assert(merge(old, v) == v);
                            },
                            None => {},
                        }
                    },
                    _ => {},
                }
            }
        },
        _ => {},
    }
}

// ── Executable operations ──────────────────────────────────────────────

impl YamlNode {
    /// A deep copy.
    #[verifier::loop_isolation(false)]
    pub fn copy(&self) -> (r: YamlNode)
        ensures
            r@ == self@,
        decreases self,
    {
        match self {
            YamlNode::Null => YamlNode::Null,
            YamlNode::Bool(b) => YamlNode::Bool(*b),
            YamlNode::PosInt(u) => YamlNode::PosInt(*u),
            YamlNode::NegInt(i) => YamlNode::NegInt(*i),
            YamlNode::Float(f) => YamlNode::Float(f.clone()),
            YamlNode::Str(t) => YamlNode::Str(t.clone()),
            YamlNode::List(v) => {
                let mut out: Vec<YamlNode> = Vec::new();
                let mut i: usize = 0;
                while i < v.len()
                    invariant
                        0 <= i <= v.len(),
                        out.len() == i,
                        forall|j: int| 0 <= j < i ==> ym(#[trigger] out@[j]) == ym(v@[j]),
                    decreases v.len() - i,
                {
                    let c = v[i].copy();
                    out.push(c);
                    i = i + 1;
                }
                proof {
                    lemma_list_view_ext(out@, v@);
                }
                YamlNode::List(out)
            },
            YamlNode::Mapping(m) => {
                let mut out: Vec<(YamlNode, YamlNode)> = Vec::new();
                let mut i: usize = 0;
                while i < m.len()
                    invariant
                        0 <= i <= m.len(),
                        out.len() == i,
                        forall|j: int|
                            0 <= j < i ==> ym(#[trigger] out@[j].0) == ym(m@[j].0) && ym(out@[j].1)
                                == ym(m@[j].1),
                    decreases m.len() - i,
                {
                    let k = m[i].0.copy();
                    let v = m[i].1.copy();
                    out.push((k, v));
                    i = i + 1;
                }
                proof {
                    lemma_map_view_ext(out@, m@);
                }
                YamlNode::Mapping(out)
            },
        }
    }
}

/// Structural equality of two nodes.
#[verifier::loop_isolation(false)]
pub fn node_eq(a: &YamlNode, b: &YamlNode) -> (r: bool)
    ensures
        r == (a@ == b@),
    decreases a,
{
    match (a, b) {
        (YamlNode::Null, YamlNode::Null) => true,
        (YamlNode::Bool(x), YamlNode::Bool(y)) => *x == *y,
        (YamlNode::PosInt(x), YamlNode::PosInt(y)) => *x == *y,
        (YamlNode::NegInt(x), YamlNode::NegInt(y)) => *x == *y,
        (YamlNode::Float(x), YamlNode::Float(y)) => *x == *y,
        (YamlNode::Str(x), YamlNode::Str(y)) => *x == *y,
        (YamlNode::List(x), YamlNode::List(y)) => {
            proof {
                lemma_list_view(x@);
                lemma_list_view(y@);
            }
            if x.len() != y.len() {
                return false;
            }
            let mut i: usize = 0;
            while i < x.len()
                invariant
                    x.len() == y.len(),
                    0 <= i <= x.len(),
                    forall|j: int| 0 <= j < i ==> ym(#[trigger] x@[j]) == ym(y@[j]),
                    list_view(x@).len() == x.len(),
                    list_view(y@).len() == y.len(),
                    forall|j: int| 0 <= j < x.len() ==> #[trigger] list_view(x@)[j] == ym(x@[j]),
                    forall|j: int| 0 <= j < y.len() ==> #[trigger] list_view(y@)[j] == ym(y@[j]),
                decreases x.len() - i,
            {
                if !node_eq(&x[i], &y[i]) {
                    assert(list_view(x@)[i as int] != list_view(y@)[i as int]);
                    return false;
                }
                i = i + 1;
            }
            proof {
                lemma_list_view_ext(x@, y@);
            }
            true
        },
        (YamlNode::Mapping(x), YamlNode::Mapping(y)) => {
            proof {
                lemma_map_view(x@);
                lemma_map_view(y@);
            }
            if x.len() != y.len() {
                return false;
            }
            let mut i: usize = 0;
            while i < x.len()
                invariant
                    x.len() == y.len(),
                    0 <= i <= x.len(),
                    forall|j: int|
                        0 <= j < i ==> ym(#[trigger] x@[j].0) == ym(y@[j].0) && ym(x@[j].1) == ym(
                            y@[j].1,
                        ),
                    map_view(x@).len() == x.len(),
                    map_view(y@).len() == y.len(),
                    forall|j: int|
                        0 <= j < x.len() ==> #[trigger] map_view(x@)[j] == (ym(x@[j].0), ym(x@[j].1)),
                    forall|j: int|
                        0 <= j < y.len() ==> #[trigger] map_view(y@)[j] == (ym(y@[j].0), ym(y@[j].1)),
                decreases x.len() - i,
            {
                if !node_eq(&x[i].0, &y[i].0) || !node_eq(&x[i].1, &y[i].1) {
                    assert(map_view(x@)[i as int] != map_view(y@)[i as int]);
                    return false;
                }
                i = i + 1;
            }
            proof {
                lemma_map_view_ext(x@, y@);
            }
            true
        },
        _ => false,
    }
}

/// Whether `n` is the string `key`.
pub fn is_str_key(n: &YamlNode, key: &str) -> (r: bool)
    ensures
        r == (n@ == Yaml::Str(key@)),
{
    match n {
        YamlNode::Str(t) => str_eq(t.as_str(), key),
        _ => false,
    }
}

/// The index of the first entry whose key is `k`.
pub fn find_key_exec(m: &Vec<(YamlNode, YamlNode)>, k: &YamlNode) -> (r: Option<usize>)
    ensures
        find_key(map_view(m@), k@) == match r {
            Some(i) => Some(i as int),
            None => None::<int>,
        },
{
    proof {
        lemma_map_view(m@);
    }
    let mut i: usize = 0;
    while i < m.len()
        invariant
            0 <= i <= m.len(),
            map_view(m@).len() == m.len(),
            forall|j: int| 0 <= j < m.len() ==> #[trigger] map_view(m@)[j] == (ym(m@[j].0), ym(m@[j].1)),
            forall|j: int| 0 <= j < i ==> #[trigger] map_view(m@)[j].0 != k@,
        decreases m.len() - i,
    {
        if node_eq(&m[i].0, k) {
            proof {
                lemma_find_key_is(map_view(m@), k@, i as int);
            }
            return Some(i);
        }
        i = i + 1;
    }
    proof {
        lemma_find_key_is(map_view(m@), k@, i as int);
    }
    None
}

/// The index of the first entry whose key is the string `key`.
pub fn find_str_key(m: &Vec<(YamlNode, YamlNode)>, key: &str) -> (r: Option<usize>)
    ensures
        find_key(map_view(m@), Yaml::Str(key@)) == match r {
            Some(i) => Some(i as int),
            None => None::<int>,
        },
{
    proof {
        lemma_map_view(m@);
    }
    let mut i: usize = 0;
    while i < m.len()
        invariant
            0 <= i <= m.len(),
            map_view(m@).len() == m.len(),
            forall|j: int| 0 <= j < m.len() ==> #[trigger] map_view(m@)[j] == (ym(m@[j].0), ym(m@[j].1)),
            forall|j: int| 0 <= j < i ==> #[trigger] map_view(m@)[j].0 != Yaml::Str(key@),
        decreases m.len() - i,
    {
        if is_str_key(&m[i].0, key) {
            proof {
                lemma_find_key_is(map_view(m@), Yaml::Str(key@), i as int);
            }
            return Some(i);
        }
        i = i + 1;
    }
    proof {
        lemma_find_key_is(map_view(m@), Yaml::Str(key@), i as int);
    }
    None
}

/// Law (deep merge, replacement): where the base or the patch is not a
/// mapping, merging gives the patch itself.
pub proof fn law_merge_replaces(base: Yaml, patch: Yaml)
    requires
        !(base is Mapping && patch is Mapping),
    ensures
        merge(base, patch) == patch,
{
}

/// Law (deep merge, keys kept): a key of a mapping base that the patch
/// does not mention keeps its value.
pub proof fn law_merge_keeps_unmentioned(b: Seq<(Yaml, Yaml)>, p: Seq<(Yaml, Yaml)>, key: Seq<char>)
    requires
        keys_unique(p),
        get(Yaml::Mapping(p), key) is None,
    ensures
        get(merge(Yaml::Mapping(b), Yaml::Mapping(p)), key) == get(Yaml::Mapping(b), key),
{
    law_merge_lookup(b, p, key);
}

/// A value whose mappings, at every depth the merge reaches, have no key
/// twice (what a parsed YAML or JSON document guarantees).
pub open spec fn well_keyed(y: Yaml) -> bool
    decreases y,
{
    match y {
        Yaml::Mapping(m) => keys_unique(m) && forall|i: int| 0 <= i < m.len() ==> well_keyed(#[trigger] m[i].1),
        _ => true,
    }
}

proof fn lemma_reapply_entries(m: Seq<(Yaml, Yaml)>, p: Seq<(Yaml, Yaml)>, j: int)
    requires
        0 <= j <= p.len(),
        forall|i: int| #![trigger p[i]] 0 <= i < p.len() ==> match find_key(m, p[i].0) {
            Some(x) => 0 <= x < m.len() && merge(m[x].1, p[i].1) == m[x].1,
            None => false,
        },
    ensures
        merge_entries(m, p.subrange(0, j)) == m,
    decreases j,
{
    if j == 0 {
        assert(p.subrange(0, 0) =~= Seq::<(Yaml, Yaml)>::empty());
    } else {
        lemma_reapply_entries(m, p, j - 1);
        lemma_merge_entries_step(m, p, j - 1);
        let e = p[j - 1];
        match find_key(m, e.0) {
            Some(x) => {
                assert(m.update(x, (m[x].0, merge(m[x].1, e.1))) =~= m);
            },
            None => {},
        }
    }
}

/// Merging a well-keyed value into itself leaves it as it is.
pub proof fn lemma_merge_self(v: Yaml)
    requires
        well_keyed(v),
    ensures
        merge(v, v) == v,
    decreases v,
{
    match v {
        Yaml::Mapping(m) => {
            assert forall|i: int| #![trigger m[i]] 0 <= i < m.len() implies match find_key(m, m[i].0) {
                Some(x) => 0 <= x < m.len() && merge(m[x].1, m[i].1) == m[x].1,
                None => false,
            } by {
                assert forall|j: int| 0 <= j < i implies #[trigger] m[j].0 != m[i].0 by {
                    assert(m[j].0 != m[i].0);
                }
                lemma_find_key_is(m, m[i].0, i);
                assert(well_keyed(m[i].1));
                lemma_merge_self(m[i].1);
            }
            lemma_reapply_entries(m, m, m.len() as int);
            assert(m.subrange(0, m.len() as int) =~= m);
        },
        _ => {},
    }
}

/// Law (deep merge is idempotent): merging the same well-keyed patch a
/// second time changes nothing.
pub proof fn law_merge_idempotent(base: Yaml, patch: Yaml)
    requires
        well_keyed(patch),
    ensures
        merge(merge(base, patch), patch) == merge(base, patch),
    decreases patch,
{
    match patch {
        Yaml::Mapping(p) => match base {
            Yaml::Mapping(b) => {
                let m = merge_entries(b, p);
                assert forall|i: int| #![trigger p[i]] 0 <= i < p.len() implies match find_key(m, p[i].0) {
                    Some(x) => 0 <= x < m.len() && merge(m[x].1, p[i].1) == m[x].1,
                    None => false,
                } by {
                    let k = p[i].0;
                    assert forall|j: int| 0 <= j < i implies #[trigger] p[j].0 != k by {
                        assert(p[j].0 != p[i].0);
                    }
                    lemma_find_key_is(p, k, i);
                    lemma_merge_entries_lookup(b, p, k, p.len() as int);
                    assert(p.subrange(0, p.len() as int) =~= p);
                    lemma_find_key(m, k);
                    lemma_find_key(b, k);
                    assert(well_keyed(p[i].1));
                    match find_key(b, k) {
                        Some(bi) => {
                            law_merge_idempotent(b[bi].1, p[i].1);
                        },
                        None => {
                            lemma_merge_self(p[i].1);
                        },
                    }
                }
                lemma_reapply_entries(m, p, p.len() as int);
                assert(p.subrange(0, p.len() as int) =~= p);
            },
            _ => {
                lemma_merge_self(patch);
            },
        },
        _ => {},
    }
}

/// The deep merge of `patch` into `base`.
#[verifier::loop_isolation(false)]
pub fn merged(base: YamlNode, patch: &YamlNode) -> (r: YamlNode)
    ensures
        r@ == merge(base@, patch@),
    decreases patch,
{
    match patch {
        YamlNode::Mapping(p) => match base {
            YamlNode::Mapping(b0) => {
                let mut b = b0;
                let ghost bv0 = map_view(b0@);
                proof {
                    lemma_map_view(p@);
                    assert(map_view(p@).subrange(0, 0) =~= Seq::<(Yaml, Yaml)>::empty());
                }
                let mut j: usize = 0;
                while j < p.len()
                    invariant
                        0 <= j <= p.len(),
                        map_view(p@).len() == p.len(),
                        forall|i: int|
                            0 <= i < p.len() ==> #[trigger] map_view(p@)[i] == (ym(p@[i].0), ym(p@[i].1)),
                        map_view(b@) == merge_entries(bv0, map_view(p@).subrange(0, j as int)),
                    decreases p.len() - j,
                {
                    proof {
                        lemma_merge_entries_step(bv0, map_view(p@), j as int);
                        lemma_map_view(b@);
                    }
                    let ghost bb = b@;
                    match find_key_exec(&b, &p[j].0) {
                        Some(i) => {
                            proof {
                                lemma_find_key(map_view(b@), p@[j as int].0@);
                            }
                            let (bk, bv) = b.remove(i);
                            let nv = merged(bv, &p[j].1);
                            b.insert(i, (bk, nv));
                            proof {
                                assert(b@ =~= bb.update(i as int, (bk, nv)));
                                lemma_map_view(b@);
                                assert(map_view(b@) =~= map_view(bb).update(
                                    i as int,
                                    (map_view(bb)[i as int].0, merge(map_view(bb)[i as int].1, ym(p@[j as int].1))),
                                ));
                            }
                        },
                        None => {
                            let k = p[j].0.copy();
                            let v = p[j].1.copy();
                            b.push((k, v));
                            proof {
                                lemma_map_view(b@);
                                assert(map_view(b@) =~= map_view(bb).push((ym(p@[j as int].0), ym(p@[j as int].1))));
                            }
                        },
                    }
                    j = j + 1;
                }
                proof {
                    assert(map_view(p@).subrange(0, p.len() as int) =~= map_view(p@));
                }
                YamlNode::Mapping(b)
            },
            _ => patch.copy(),
        },
        _ => patch.copy(),
    }
}

/// Deep-merge `patch` into `base` in place.
pub fn deep_merge(base: &mut YamlNode, patch: &YamlNode)
    ensures
        final(base)@ == merge(old(base)@, patch@),
{
    let mut b = YamlNode::Null;
    std::mem::swap(&mut b, base);
    *base = merged(b, patch);
}


// ── Typed lookups ──────────────────────────────────────────────────────

/// `Value::get(key)`.
pub fn get_node<'a>(n: &'a YamlNode, key: &str) -> (r: Option<&'a YamlNode>)
    ensures
        match r {
            Some(x) => get(n@, key@) == Some(x@),
            None => get(n@, key@) is None,
        },
{
    match n {
        YamlNode::Mapping(m) => {
            proof {
                lemma_map_view(m@);
                lemma_find_key(map_view(m@), Yaml::Str(key@));
            }
            match find_str_key(m, key) {
                Some(i) => Some(&m[i].1),
                None => None,
            }
        },
        _ => None,
    }
}

/// The string at `section.key`, or the empty string.
pub open spec fn spec_get_str(cfg: Yaml, section: Seq<char>, key: Seq<char>) -> Seq<char> {
    match get2(cfg, section, key) {
        Some(Yaml::Str(s)) => s,
        _ => Seq::empty(),
    }
}

/// The boolean at `section.key`, or `false`.
pub open spec fn spec_get_bool(cfg: Yaml, section: Seq<char>, key: Seq<char>) -> bool {
    match get2(cfg, section, key) {
        Some(Yaml::Bool(b)) => b,
        _ => false,
    }
}

/// `Value::as_i64`: integers that fit in an `i64`.
pub open spec fn as_i64(v: Yaml) -> Option<i64> {
    match v {
        Yaml::PosInt(u) => if u <= i64::MAX {
            Some(u as i64)
        } else {
            None
        },
        Yaml::NegInt(i) => Some(i),
        _ => None,
    }
}

/// The integer at `section.key`, or `default`.
pub open spec fn spec_get_i64(cfg: Yaml, section: Seq<char>, key: Seq<char>, default: i64) -> i64 {
    match get2(cfg, section, key) {
        Some(v) => match as_i64(v) {
            Some(i) => i,
            None => default,
        },
        None => default,
    }
}

pub fn node_as_i64(n: &YamlNode) -> (r: Option<i64>)
    ensures
        r == as_i64(n@),
{
    match n {
        YamlNode::PosInt(u) => if *u <= 0x7fff_ffff_ffff_ffffu64 {
            Some(*u as i64)
        } else {
            None
        },
        YamlNode::NegInt(i) => Some(*i),
        _ => None,
    }
}

/// The node at `section.key`.
pub fn get_node2<'a>(cfg: &'a YamlNode, section: &str, key: &str) -> (r: Option<&'a YamlNode>)
    ensures
        match r {
            Some(x) => get2(cfg@, section@, key@) == Some(x@),
            None => get2(cfg@, section@, key@) is None,
        },
{
    match get_node(cfg, section) {
        Some(s) => get_node(s, key),
        None => None,
    }
}

/// The string at `section.key`, or `""`.
pub fn get_str<'a>(cfg: &'a YamlNode, section: &str, key: &str) -> (r: &'a str)
    ensures
        r@ == spec_get_str(cfg@, section@, key@),
{
    match get_node2(cfg, section, key) {
        Some(YamlNode::Str(s)) => s.as_str(),
        _ => {
            proof {
                reveal_strlit("");
            }
            ""
        },
    }
}

/// The boolean at `section.key`, or `false`.
pub fn get_bool(cfg: &YamlNode, section: &str, key: &str) -> (r: bool)
    ensures
        r == spec_get_bool(cfg@, section@, key@),
{
    match get_node2(cfg, section, key) {
        Some(YamlNode::Bool(b)) => *b,
        _ => false,
    }
}

/// The integer at `section.key`, or `default`.
pub fn get_i64(cfg: &YamlNode, section: &str, key: &str, default: i64) -> (r: i64)
    ensures
        r == spec_get_i64(cfg@, section@, key@, default),
{
    match get_node2(cfg, section, key) {
        Some(v) => match node_as_i64(v) {
            Some(i) => i,
            None => default,
        },
        None => default,
    }
}

/// A copy of the section `section`, or an empty mapping.
pub fn get_section(cfg: &YamlNode, section: &str) -> (r: YamlNode)
    ensures
        r@ == match get(cfg@, section@) {
            Some(v) => v,
            None => Yaml::Mapping(Seq::empty()),
        },
{
    match get_node(cfg, section) {
        Some(v) => v.copy(),
        None => {
            let r = YamlNode::Mapping(Vec::new());
            proof {
                assert(map_view(Seq::<(YamlNode, YamlNode)>::empty()) =~= Seq::<(Yaml, Yaml)>::empty());
            }
            r
        },
    }
}


// ── Setting one key ────────────────────────────────────────────────────

/// The entries with `k` set to `v`: in place when `k` is present, appended
/// otherwise (how a YAML mapping inserts).
pub open spec fn set_entry(m: Seq<(Yaml, Yaml)>, k: Yaml, v: Yaml) -> Seq<(Yaml, Yaml)> {
    match find_key(m, k) {
        Some(i) => if 0 <= i < m.len() {
            m.update(i, (m[i].0, v))
        } else {
            m
        },
        None => m.push((k, v)),
    }
}

/// Set the string key `key` of the entries `m` to `v`.
pub fn set_str_key(m: &mut Vec<(YamlNode, YamlNode)>, key: &str, v: YamlNode)
    ensures
        map_view(final(m)@) == set_entry(map_view(old(m)@), Yaml::Str(key@), v@),
{
    let ghost m0 = m@;
    proof {
        lemma_map_view(m@);
        lemma_find_key(map_view(m@), Yaml::Str(key@));
    }
    match find_str_key(m, key) {
        Some(i) => {
            let (k, _old) = m.remove(i);
            m.insert(i, (k, v));
            proof {
                assert(m@ =~= m0.update(i as int, (k, v)));
                lemma_map_view(m@);
                assert(map_view(m@) =~= map_view(m0).update(i as int, (map_view(m0)[i as int].0, v@)));
            }
        },
        None => {
            let k = YamlNode::Str(String::from_str(key));
            m.push((k, v));
            proof {
                lemma_map_view(m@);
                assert(map_view(m@) =~= map_view(m0).push((Yaml::Str(key@), v@)));
            }
        },
    }
}

/// Law (set, then look up): after setting `k`, looking `k` up gives the new
/// value, and looking up any other key gives what it gave before.
pub proof fn law_set_entry_lookup(m: Seq<(Yaml, Yaml)>, k: Yaml, v: Yaml, q: Yaml)
    ensures
        lookup(set_entry(m, k, v), q) == if q == k {
            Some(v)
        } else {
            lookup(m, q)
        },
{
    lemma_find_key(m, k);
    match find_key(m, k) {
        Some(i) => {
            lemma_find_key_update(m, i, v, q);
            let u = m.update(i, (m[i].0, v));
            lemma_find_key(m, q);
            match find_key(m, q) {
                Some(f) => {
                    if q != k {
                        assert(f != i);
                        assert(u[f] == m[f]);
                    }
                },
                None => {},
            }
        },
        None => {
            lemma_find_key_push(m, (k, v), q);
            lemma_find_key(m, q);
            match find_key(m, q) {
                Some(f) => {
                    assert(m.push((k, v))[f] == m[f]);
                },
                None => {},
            }
        },
    }
}


/// Setting a key whose value was first cleared is setting it on the original.
pub proof fn lemma_set_after_clear(m: Seq<(Yaml, Yaml)>, j: int, k: Yaml, v: Yaml)
    requires
        find_key(m, k) == Some(j),
    ensures
        set_entry(m.update(j, (m[j].0, Yaml::Null)), k, v) == set_entry(m, k, v),
        set_entry(m, k, m[j].1) == m,
{
    lemma_find_key(m, k);
    lemma_find_key_update(m, j, Yaml::Null, k);
    assert(m.update(j, (m[j].0, Yaml::Null)).update(j, (m[j].0, v)) =~= m.update(j, (m[j].0, v)));
    assert(m.update(j, (m[j].0, m[j].1)) =~= m);
}

/// The view of entries after one value was cleared.
pub proof fn lemma_map_view_clear(m: Seq<(YamlNode, YamlNode)>, i: int)
    requires
        0 <= i < m.len(),
    ensures
        map_view(m.update(i, (m[i].0, YamlNode::Null))) == map_view(m).update(
            i,
            (map_view(m)[i].0, Yaml::Null),
        ),
{
    lemma_map_view(m);
    lemma_map_view(m.update(i, (m[i].0, YamlNode::Null)));
    assert(map_view(m.update(i, (m[i].0, YamlNode::Null))) =~= map_view(m).update(
        i,
        (map_view(m)[i].0, Yaml::Null),
    ));
}

} // verus!
