//! Configuration: file locations, the default configuration, partial
//! updates, and the list of AI providers kept under `ai.providers`.
use vstd::prelude::*;

use crate::error::AppError;
use crate::config_defaults::{default_config, spec_default_config};
use serde_yaml::Value as YamlValue;
use crate::text::{chars_of, string_of, concat};
use crate::yaml::{
    YamlNode, Yaml, ym, map_view, list_view, lookup, get, set_entry, find_key, set_str_key,
    find_str_key, get_node, is_str_key, lemma_map_view, lemma_list_view, lemma_find_key,
    lemma_list_view_ext, deep_merge, merge, lemma_set_after_clear, lemma_map_view_clear,
    lemma_find_key_is, law_set_entry_lookup,
};

verus! {

// ── Paths ──────────────────────────────────────────────────────────────

pub open spec fn is_sep(c: char) -> bool {
    c == '/' || c == '\\'
}

/// The index of the last path separator of `s`.
pub open spec fn last_sep(s: Seq<char>) -> Option<int>
    decreases s.len(),
{
    if s.len() == 0 {
        None
    } else if is_sep(s.last()) {
        Some(s.len() - 1)
    } else {
        last_sep(s.drop_last())
    }
}

proof fn lemma_last_sep(s: Seq<char>)
    ensures
        match last_sep(s) {
            Some(i) => 0 <= i < s.len() && is_sep(s[i]) && forall|j: int|
                i < j < s.len() ==> !is_sep(#[trigger] s[j]),
            None => forall|j: int| 0 <= j < s.len() ==> !is_sep(#[trigger] s[j]),
        },
    decreases s.len(),
{
    if s.len() > 0 && !is_sep(s.last()) {
        let t = s.drop_last();
        lemma_last_sep(t);
        match last_sep(t) {
            Some(i) => {
                assert forall|j: int| i < j < s.len() implies !is_sep(#[trigger] s[j]) by {
                    if j < s.len() - 1 {
                        assert(s[j] == t[j]);
                    }
                }
                assert(s[i] == t[i]);
            },
            None => {
                assert forall|j: int| 0 <= j < s.len() implies !is_sep(#[trigger] s[j]) by {
                    if j < s.len() - 1 {
                        assert(s[j] == t[j]);
                    }
                }
            },
        }
    }
}

/// The directory part of a path: the text before its last separator (the
/// separator itself when it is the first character); a bare file name has
/// the empty directory, the empty path none.
pub open spec fn parent_dir(p: Seq<char>) -> Option<Seq<char>> {
    match last_sep(p) {
        Some(i) => if i == 0 {
            Some(p.subrange(0, 1))
        } else {
            Some(p.subrange(0, i))
        },
        None => if p.len() == 0 {
            None
        } else {
            Some(Seq::empty())
        },
    }
}

/// `dir` joined with the relative name `name`.
pub open spec fn join_path(dir: Seq<char>, name: Seq<char>) -> Seq<char> {
    if dir.len() == 0 {
        name
    } else if is_sep(dir.last()) {
        dir + name
    } else {
        dir + seq!['/'] + name
    }
}

pub fn join(dir: &str, name: &str) -> (r: String)
    ensures
        r@ == join_path(dir@, name@),
{
    let d = chars_of(dir);
    let n = chars_of(name);
    if d.len() == 0 {
        string_of(&n)
    } else if d[d.len() - 1] == '/' || d[d.len() - 1] == '\\' {
        string_of(&concat(&d, &n))
    } else {
        let mut d2 = d.clone();
        d2.push('/');
        proof {
            assert(d2@ == d@ + seq!['/']);
        }
        string_of(&concat(&d2, &n))
    }
}

/// The directory of the running executable, given the executable's path
/// (`None` when it could not be determined); `"."` when there is none.
pub fn exe_dir_public(current_exe: Option<&str>) -> (r: String)
    ensures
        r@ == match current_exe {
            Some(p) => match parent_dir(p@) {
                Some(d) => d,
                None => "."@,
            },
            None => "."@,
        },
{
    match current_exe {
        Some(p) => {
            let v = chars_of(p);
            let mut i = v.len();
            while i > 0 && !(v[i - 1] == '/' || v[i - 1] == '\\')
                invariant
                    0 <= i <= v.len(),
                    forall|j: int| i <= j < v.len() ==> !is_sep(#[trigger] v@[j]),
                decreases i,
            {
                i = i - 1;
            }
            proof {
                lemma_last_sep(v@);
                match last_sep(v@) {
                    Some(k) => {
                        assert(k < i);
                        assert(i == k + 1);
                    },
                    None => {
                        assert(i == 0);
                    },
                }
            }
            if i == 0 {
                if v.len() == 0 {
                    String::from_str(".")
                } else {
                    String::new()
                }
            } else if i == 1 {
                string_of(&crate::text::slice_chars(&v, 0, 1))
            } else {
                string_of(&crate::text::slice_chars(&v, 0, i - 1))
            }
        },
        None => String::from_str("."),
    }
}

/// `<exe_dir>/config.yaml`.
pub fn config_path(exe_dir: &str) -> (r: String)
    ensures
        r@ == join_path(exe_dir@, "config.yaml"@),
{
    join(exe_dir, "config.yaml")
}

/// `<exe_dir>/data`.
pub fn data_dir(exe_dir: &str) -> (r: String)
    ensures
        r@ == join_path(exe_dir@, "data"@),
{
    join(exe_dir, "data")
}

/// `<exe_dir>/data/presets`.
pub fn presets_dir(exe_dir: &str) -> (r: String)
    ensures
        r@ == join_path(join_path(exe_dir@, "data"@), "presets"@),
{
    let d = data_dir(exe_dir);
    join(d.as_str(), "presets")
}

/// `<exe_dir>/data/ai_history`.
pub fn ai_history_dir(exe_dir: &str) -> (r: String)
    ensures
        r@ == join_path(join_path(exe_dir@, "data"@), "ai_history"@),
{
    let d = data_dir(exe_dir);
    join(d.as_str(), "ai_history")
}


// ── Partial updates ────────────────────────────────────────────────────

/// Merge the partial `patch` into the configuration (see `law_update_read_back`
/// and `law_update_frame` for what a one-key patch does).
pub fn update_config(cfg: &mut YamlNode, patch: &YamlNode)
    ensures
        final(cfg)@ == merge(old(cfg)@, patch@),
{
    deep_merge(cfg, patch);
}

/// Fill in defaults under a loaded configuration: the loaded values win.
pub fn merge_defaults(cfg: &mut YamlNode, defaults: YamlNode)
    ensures
        final(cfg)@ == merge(defaults@, old(cfg)@),
{
    let mut merged = defaults;
    deep_merge(&mut merged, cfg);
    *cfg = merged;
}


// ── The configuration file ─────────────────────────────────────────────

/// Name for what `serde_yaml::from_str::<serde_yaml::Value>` makes of
/// `raw`: the document as a tree, or the text of the parse error.
pub uninterp spec fn yaml_tree_of(raw: Seq<char>) -> Result<Yaml, Seq<char>>;

/// Name for what `serde_yaml::to_string` makes of a tree: its YAML text,
/// or the text of the error.
pub uninterp spec fn yaml_text_of(cfg: Yaml) -> Result<Seq<char>, Seq<char>>;

#[verifier::external_type_specification]
#[verifier::external_body]
pub struct ExYamlValue(YamlValue);

/// `serde_yaml::from_str::<serde_yaml::Value>`, the document as a tree, or
/// the error's text.
#[verifier::external_body]
fn parse_yaml(raw: &str) -> (r: Result<YamlNode, String>)
    ensures
        match r {
            Ok(n) => yaml_tree_of(raw@) == Ok::<Yaml, Seq<char>>(n@),
            Err(e) => yaml_tree_of(raw@) == Err::<Yaml, Seq<char>>(e@),
        },
{
    match serde_yaml::from_str::<YamlValue>(raw) {
        Ok(v) => Ok(node_of_yaml(&v)),
        Err(e) => Err(e.to_string()),
    }
}

/// `serde_yaml::to_string` of a tree, or the error's text.
#[verifier::external_body]
fn yaml_text(cfg: &YamlNode) -> (r: Result<String, String>)
    ensures
        match r {
            Ok(t) => yaml_text_of(cfg@) == Ok::<Seq<char>, Seq<char>>(t@),
            Err(e) => yaml_text_of(cfg@) == Err::<Seq<char>, Seq<char>>(e@),
        },
{
    serde_yaml::to_string(&yaml_of_node(cfg)).map_err(|e| e.to_string())
}

/// A YAML value as a tree, variant for variant (a number by the variant it
/// fits: `u64`, `i64`, else its decimal text; a tagged value by its value).
#[verifier::external_body]
fn node_of_yaml(v: &YamlValue) -> YamlNode {
    match v {
        YamlValue::Null => YamlNode::Null,
        YamlValue::Bool(b) => YamlNode::Bool(*b),
        YamlValue::Number(n) => match (n.as_u64(), n.as_i64()) {
            (Some(u), _) => YamlNode::PosInt(u),
            (None, Some(i)) => YamlNode::NegInt(i),
            _ => YamlNode::Float(n.to_string()),
        },
        YamlValue::String(t) => YamlNode::Str(t.clone()),
        YamlValue::Sequence(l) => YamlNode::List(l.iter().map(node_of_yaml).collect()),
        YamlValue::Mapping(m) => YamlNode::Mapping(m.iter().map(|(k, x)| (node_of_yaml(k), node_of_yaml(x))).collect()),
        YamlValue::Tagged(t) => node_of_yaml(&t.value),
    }
}

/// A tree as a YAML value, variant for variant (a decimal number read back
/// from its text).
#[verifier::external_body]
fn yaml_of_node(n: &YamlNode) -> YamlValue {
    match n {
        YamlNode::Null => YamlValue::Null,
        YamlNode::Bool(b) => YamlValue::Bool(*b),
        YamlNode::PosInt(u) => YamlValue::Number((*u).into()),
        YamlNode::NegInt(i) => YamlValue::Number((*i).into()),
        YamlNode::Float(t) => serde_yaml::from_str::<YamlValue>(t).unwrap_or(YamlValue::String(t.clone())),
        YamlNode::Str(t) => YamlValue::String(t.clone()),
        YamlNode::List(l) => YamlValue::Sequence(l.iter().map(yaml_of_node).collect()),
        YamlNode::Mapping(m) => YamlValue::Mapping(m.iter().map(|(k, x)| (yaml_of_node(k), yaml_of_node(x))).collect()),
    }
}

/// The configuration held by the text of the configuration file (`None`
/// when there is no file): the file's values over the defaults, or the
/// defaults alone when the file is missing or is not YAML.
pub fn config_from_text(raw: Option<&str>) -> (r: YamlNode)
    ensures
        r@ == match raw {
            Some(t) => match yaml_tree_of(t@) {
                Ok(y) => merge(spec_default_config(), y),
                Err(_) => spec_default_config(),
            },
            None => spec_default_config(),
        },
{
    match raw {
        Some(t) => match parse_yaml(t) {
            Ok(c) => {
                let mut cfg = c;
                merge_defaults(&mut cfg, default_config());
                cfg
            },
            Err(_) => default_config(),
        },
        None => default_config(),
    }
}

/// Merges the configuration text `raw` of another installation over
/// `cfg`; an error, and `cfg` unchanged, when it is not YAML.
pub fn import_config_text(cfg: &mut YamlNode, raw: &str) -> (r: Result<(), AppError>)
    ensures
        match yaml_tree_of(raw@) {
            Ok(y) => r is Ok && final(cfg)@ == merge(old(cfg)@, y),
            Err(e) => (r matches Err(AppError::Internal(m)) && m@ == "解析配置文件失败: "@ + e) && final(cfg)@ == old(cfg)@,
        },
{
    match parse_yaml(raw) {
        Ok(external) => {
            update_config(cfg, &external);
            Ok(())
        },
        Err(e) => Err(AppError::Internal(String::from_str("解析配置文件失败: ").concat(e.as_str()))),
    }
}

/// The text written to the configuration file for `cfg`.
pub fn config_file_text(cfg: &YamlNode) -> (r: Result<String, AppError>)
    ensures
        match yaml_text_of(cfg@) {
            Ok(t) => r matches Ok(s) && s@ == t,
            Err(e) => r matches Err(AppError::Internal(m)) && m@ == e,
        },
{
    match yaml_text(cfg) {
        Ok(t) => Ok(t),
        Err(e) => Err(AppError::Internal(e)),
    }
}

// ── Providers ──────────────────────────────────────────────────────────

/// An OpenAI-compatible AI service.
#[derive(Debug)]
pub struct ProviderConfig {
    pub id: String,
    pub name: String,
    pub api_base: String,
    pub api_key: String,
    pub model: String,
}

/// The fields of a provider that an update sets (`None`: left as is).
#[derive(Debug)]
pub struct ProviderPatch {
    pub name: Option<String>,
    pub api_base: Option<String>,
    pub api_key: Option<String>,
    pub model: Option<String>,
}

pub open spec fn key(s: Seq<char>) -> Yaml {
    Yaml::Str(s)
}

/// A provider as it is stored in the configuration.
pub open spec fn provider_yaml(p: ProviderConfig) -> Yaml {
    Yaml::Mapping(
        seq![
            (key("id"@), Yaml::Str(p.id@)),
            (key("name"@), Yaml::Str(p.name@)),
            (key("api_base"@), Yaml::Str(p.api_base@)),
            (key("api_key"@), Yaml::Str(p.api_key@)),
            (key("model"@), Yaml::Str(p.model@)),
        ],
    )
}

fn str_node(k: &str) -> (r: YamlNode)
    ensures
        r@ == Yaml::Str(k@),
{
    YamlNode::Str(String::from_str(k))
}

/// The stored form of a provider.
pub fn provider_node(p: &ProviderConfig) -> (r: YamlNode)
    ensures
        r@ == provider_yaml(*p),
{
    let mut m: Vec<(YamlNode, YamlNode)> = Vec::new();
    m.push((str_node("id"), YamlNode::Str(p.id.clone())));
    m.push((str_node("name"), YamlNode::Str(p.name.clone())));
    m.push((str_node("api_base"), YamlNode::Str(p.api_base.clone())));
    m.push((str_node("api_key"), YamlNode::Str(p.api_key.clone())));
    m.push((str_node("model"), YamlNode::Str(p.model.clone())));
    proof {
        lemma_map_view(m@);
        assert(map_view(m@) =~= seq![
            (key("id"@), Yaml::Str(p.id@)),
            (key("name"@), Yaml::Str(p.name@)),
            (key("api_base"@), Yaml::Str(p.api_base@)),
            (key("api_key"@), Yaml::Str(p.api_key@)),
            (key("model"@), Yaml::Str(p.model@)),
        ]);
    }
    YamlNode::Mapping(m)
}

/// The `ai` section after a provider was appended to `ai.providers`.
pub open spec fn ai_with_provider(ai: Seq<(Yaml, Yaml)>, pn: Yaml) -> Seq<(Yaml, Yaml)> {
    match lookup(ai, key("providers"@)) {
        Some(Yaml::List(l)) => set_entry(ai, key("providers"@), Yaml::List(l.push(pn))),
        Some(_) => ai,
        None => ai.push((key("providers"@), Yaml::List(seq![pn]))),
    }
}

/// The configuration after `add_provider`, or `None` when it is not a mapping.
pub open spec fn spec_add_provider(cfg: Yaml, pn: Yaml) -> Option<Yaml> {
    match cfg {
        Yaml::Mapping(m) => {
            let ai = match lookup(m, key("ai"@)) {
                Some(Yaml::Mapping(a)) => a,
                _ => Seq::empty(),
            };
            Some(Yaml::Mapping(set_entry(m, key("ai"@), Yaml::Mapping(ai_with_provider(ai, pn)))))
        },
        _ => None,
    }
}

/// Take the value of entry `i` out of `m`, leaving `Null` in its place.
fn take_value(m: &mut Vec<(YamlNode, YamlNode)>, i: usize) -> (r: YamlNode)
    requires
        i < old(m).len(),
    ensures
        r == old(m)@[i as int].1,
        final(m)@ == old(m)@.update(i as int, (old(m)@[i as int].0, YamlNode::Null)),
{
    let (k, v) = m.remove(i);
    m.insert(i, (k, YamlNode::Null));
    proof {
        assert(final(m)@ =~= old(m)@.update(i as int, (old(m)@[i as int].0, YamlNode::Null)));
    }
    v
}

/// Append a provider to `ai.providers`, creating the `ai` section (and the
/// list) when missing. Fails when the configuration is not a mapping.
pub fn add_provider(cfg: &mut YamlNode, provider: ProviderConfig) -> (r: Result<(), AppError>)
    ensures
        match spec_add_provider(old(cfg)@, provider_yaml(provider)) {
            Some(c) => r is Ok && final(cfg)@ == c,
            None => final(cfg)@ == old(cfg)@ && (r matches Err(AppError::Internal(msg)) && msg@
                == "config is not a mapping"@),
        },
{
    let pn = provider_node(&provider);
    let ghost pny = provider_yaml(provider);
    let mut c = YamlNode::Null;
    std::mem::swap(&mut c, cfg);
    match c {
        YamlNode::Mapping(mut m) => {
            let ghost m0 = map_view(m@);
            proof {
                lemma_map_view(m@);
                lemma_find_key(m0, key("ai"@));
            }
            let ai_idx = find_str_key(&m, "ai");
            let mut ai: Vec<(YamlNode, YamlNode)> = match ai_idx {
                Some(i) => {
                    proof {
                        lemma_map_view_clear(m@, i as int);
                    }
                    let v = take_value(&mut m, i);
                    match v {
                        YamlNode::Mapping(a) => a,
                        _ => Vec::new(),
                    }
                },
                None => Vec::new(),
            };
            let ghost a0 = map_view(ai@);
            proof {
                assert(map_view(Seq::<(YamlNode, YamlNode)>::empty()) =~= Seq::<(Yaml, Yaml)>::empty());
                assert(a0 == match lookup(m0, key("ai"@)) {
                    Some(Yaml::Mapping(a)) => a,
                    _ => Seq::<(Yaml, Yaml)>::empty(),
                });
                lemma_map_view(ai@);
                lemma_find_key(a0, key("providers"@));
            }
            match find_str_key(&ai, "providers") {
                Some(j) => {
                    proof {
                        lemma_map_view_clear(ai@, j as int);
                        lemma_set_after_clear(a0, j as int, key("providers"@), Yaml::Null);
                    }
                    let pv = take_value(&mut ai, j);
                    match pv {
                        YamlNode::List(mut l) => {
                            let ghost l0 = l@;
                            l.push(pn);
                            proof {
                                lemma_list_view(l@);
                                lemma_list_view(l0);
                                assert(list_view(l@) =~= list_view(l0).push(pny));
                                lemma_set_after_clear(a0, j as int, key("providers"@), Yaml::List(list_view(l@)));
                            }
                            set_str_key(&mut ai, "providers", YamlNode::List(l));
                        },
                        other => {
                            proof {
                                lemma_set_after_clear(a0, j as int, key("providers"@), ym(other));
                            }
                            set_str_key(&mut ai, "providers", other);
                        },
                    }
                },
                None => {
                    let mut l: Vec<YamlNode> = Vec::new();
                    l.push(pn);
                    proof {
                        lemma_list_view(l@);
                        assert(list_view(l@) =~= seq![pny]);
                    }
                    set_str_key(&mut ai, "providers", YamlNode::List(l));
                    proof {
                        assert(set_entry(a0, key("providers"@), Yaml::List(seq![pny])) == a0.push((key("providers"@), Yaml::List(seq![pny]))));
                    }
                },
            }
            proof {
                assert(map_view(ai@) == ai_with_provider(a0, pny));
                match ai_idx {
                    Some(i) => {
                        lemma_set_after_clear(m0, i as int, key("ai"@), Yaml::Mapping(map_view(ai@)));
                    },
                    None => {},
                }
            }
            set_str_key(&mut m, "ai", YamlNode::Mapping(ai));
            *cfg = YamlNode::Mapping(m);
            Ok(())
        },
        other => {
            *cfg = other;
            Err(AppError::Internal(String::from_str("config is not a mapping")))
        },
    }
}


/// The provider list at `ai.providers`, when there is one.
pub open spec fn providers_of(cfg: Yaml) -> Option<Seq<Yaml>> {
    match get(cfg, "ai"@) {
        Some(ai) => match get(ai, "providers"@) {
            Some(Yaml::List(l)) => Some(l),
            _ => None,
        },
        None => None,
    }
}

/// The configuration with the provider list `l` in place of the old one.
pub open spec fn with_providers(cfg: Yaml, l: Seq<Yaml>) -> Yaml {
    match cfg {
        Yaml::Mapping(m) => match lookup(m, key("ai"@)) {
            Some(Yaml::Mapping(a)) => Yaml::Mapping(
                set_entry(m, key("ai"@), Yaml::Mapping(set_entry(a, key("providers"@), Yaml::List(l)))),
            ),
            _ => cfg,
        },
        _ => cfg,
    }
}

/// A stored provider whose `id` is the string `id`.
pub open spec fn has_id(p: Yaml, id: Seq<char>) -> bool {
    get(p, "id"@) == Some(Yaml::Str(id))
}

pub open spec fn first_with_id(l: Seq<Yaml>, id: Seq<char>) -> Option<int>
    decreases l.len(),
{
    if l.len() == 0 {
        None
    } else if has_id(l[0], id) {
        Some(0)
    } else {
        match first_with_id(l.drop_first(), id) {
            Some(i) => Some(i + 1),
            None => None,
        }
    }
}

proof fn lemma_first_with_id(l: Seq<Yaml>, id: Seq<char>)
    ensures
        match first_with_id(l, id) {
            Some(i) => 0 <= i < l.len() && has_id(l[i], id) && forall|j: int|
                0 <= j < i ==> !has_id(#[trigger] l[j], id),
            None => forall|j: int| 0 <= j < l.len() ==> !has_id(#[trigger] l[j], id),
        },
    decreases l.len(),
{
    if l.len() > 0 && !has_id(l[0], id) {
        let t = l.drop_first();
        lemma_first_with_id(t, id);
        match first_with_id(t, id) {
            Some(i) => {
                assert forall|j: int| 0 <= j < i + 1 implies !has_id(#[trigger] l[j], id) by {
                    if j > 0 {
                        assert(l[j] == t[j - 1]);
                    }
                }
            },
            None => {
                assert forall|j: int| 0 <= j < l.len() implies !has_id(#[trigger] l[j], id) by {
                    if j > 0 {
                        assert(l[j] == t[j - 1]);
                    }
                }
            },
        }
    }
}

pub open spec fn set_opt(e: Seq<(Yaml, Yaml)>, k: Seq<char>, v: Option<String>) -> Seq<(Yaml, Yaml)> {
    match v {
        Some(s) => set_entry(e, key(k), Yaml::Str(s@)),
        None => e,
    }
}

/// A stored provider with the fields of `patch` set.
pub open spec fn patched(p: Yaml, patch: ProviderPatch) -> Yaml {
    match p {
        Yaml::Mapping(e) => Yaml::Mapping(
            set_opt(
                set_opt(
                    set_opt(set_opt(e, "name"@, patch.name), "api_base"@, patch.api_base),
                    "api_key"@,
                    patch.api_key,
                ),
                "model"@,
                patch.model,
            ),
        ),
        _ => p,
    }
}

/// The configuration after `update_provider`; `None` when no provider has the id.
pub open spec fn spec_update_provider(cfg: Yaml, id: Seq<char>, patch: ProviderPatch) -> Option<Yaml> {
    match providers_of(cfg) {
        Some(l) => match first_with_id(l, id) {
            Some(i) => Some(with_providers(cfg, l.update(i, patched(l[i], patch)))),
            None => None,
        },
        None => None,
    }
}

/// The providers that do not have the id `id`, in order.
pub open spec fn without_id(l: Seq<Yaml>, id: Seq<char>) -> Seq<Yaml>
    decreases l.len(),
{
    if l.len() == 0 {
        l
    } else {
        let r = without_id(l.drop_last(), id);
        if has_id(l.last(), id) {
            r
        } else {
            r.push(l.last())
        }
    }
}

/// The configuration after `delete_provider`; `None` when no provider has the id.
pub open spec fn spec_delete_provider(cfg: Yaml, id: Seq<char>) -> Option<Yaml> {
    match providers_of(cfg) {
        Some(l) => if without_id(l, id).len() == l.len() {
            None
        } else {
            Some(with_providers(cfg, without_id(l, id)))
        },
        None => None,
    }
}

/// `"provider '<id>' not found"`.
pub open spec fn provider_not_found(id: Seq<char>) -> Seq<char> {
    "provider '"@ + id + "' not found"@
}

fn not_found_message(id: &str) -> (r: String)
    ensures
        r@ == provider_not_found(id@),
{
    String::from_str("provider '").concat(id).concat("' not found")
}

/// The provider list at `ai.providers`.
pub fn providers_ref(cfg: &YamlNode) -> (r: Option<&Vec<YamlNode>>)
    ensures
        match r {
            Some(l) => providers_of(cfg@) == Some(list_view(l@)),
            None => providers_of(cfg@) is None,
        },
{
    match get_node(cfg, "ai") {
        Some(ai) => match get_node(ai, "providers") {
            Some(YamlNode::List(l)) => Some(l),
            _ => None,
        },
        None => None,
    }
}

/// Whether the stored provider `p` has the id `id`.
pub fn node_has_id(p: &YamlNode, id: &str) -> (r: bool)
    ensures
        r == has_id(p@, id@),
{
    match get_node(p, "id") {
        Some(v) => is_str_key(v, id),
        None => false,
    }
}

/// Replace the provider list of a configuration that has one.
fn set_providers(cfg: &mut YamlNode, l: Vec<YamlNode>)
    requires
        providers_of(old(cfg)@) is Some,
    ensures
        final(cfg)@ == with_providers(old(cfg)@, list_view(l@)),
{
    let mut c = YamlNode::Null;
    std::mem::swap(&mut c, cfg);
    match c {
        YamlNode::Mapping(mut m) => {
            let ghost m0 = map_view(m@);
            proof {
                lemma_map_view(m@);
                lemma_find_key(m0, key("ai"@));
            }
            match find_str_key(&m, "ai") {
                Some(i) => {
                    proof {
                        lemma_map_view_clear(m@, i as int);
                    }
                    let v = take_value(&mut m, i);
                    match v {
                        YamlNode::Mapping(mut a) => {
                            set_str_key(&mut a, "providers", YamlNode::List(l));
                            proof {
                                lemma_set_after_clear(m0, i as int, key("ai"@), Yaml::Mapping(map_view(a@)));
                            }
                            set_str_key(&mut m, "ai", YamlNode::Mapping(a));
                            *cfg = YamlNode::Mapping(m);
                        },
                        _ => {
                            assert(false);
                            *cfg = YamlNode::Null;
                        },
                    }
                },
                None => {
                    assert(false);
                    *cfg = YamlNode::Null;
                },
            }
        },
        _ => {
            *cfg = c;
        },
    }
}

/// A copy of a provider list.
fn copy_list(l: &Vec<YamlNode>) -> (r: Vec<YamlNode>)
    ensures
        list_view(r@) == list_view(l@),
{
    let mut out: Vec<YamlNode> = Vec::new();
    let mut i: usize = 0;
    while i < l.len()
        invariant
            0 <= i <= l.len(),
            out.len() == i,
            forall|j: int| 0 <= j < i ==> ym(#[trigger] out@[j]) == ym(l@[j]),
        decreases l.len() - i,
    {
        out.push(l[i].copy());
        i = i + 1;
    }
    proof {
        lemma_list_view_ext(out@, l@);
    }
    out
}

fn set_opt_exec(e: &mut Vec<(YamlNode, YamlNode)>, k: &str, v: &Option<String>)
    ensures
        map_view(final(e)@) == set_opt(map_view(old(e)@), k@, *v),
{
    match v {
        Some(s) => set_str_key(e, k, YamlNode::Str(s.clone())),
        None => {},
    }
}

/// Set the fields of `patch` on the provider with the id `id` (the first
/// one, if several have it). Fails with `NotFound` when there is no
/// provider list or no provider has the id.
pub fn update_provider(cfg: &mut YamlNode, id: &str, patch: &ProviderPatch) -> (r: Result<(), AppError>)
    ensures
        match spec_update_provider(old(cfg)@, id@, *patch) {
            Some(c) => r is Ok && final(cfg)@ == c,
            None => final(cfg)@ == old(cfg)@ && (r matches Err(AppError::NotFound(msg)) && msg@
                == provider_not_found(id@)),
        },
{
    let l = match providers_ref(cfg) {
        Some(l) => l,
        None => return Err(AppError::NotFound(not_found_message(id))),
    };
    proof {
        lemma_list_view(l@);
    }
    let mut i: usize = 0;
    while i < l.len()
        invariant
            0 <= i <= l.len(),
            list_view(l@).len() == l.len(),
            forall|j: int| 0 <= j < l.len() ==> #[trigger] list_view(l@)[j] == ym(l@[j]),
            forall|j: int| 0 <= j < i ==> !has_id(#[trigger] list_view(l@)[j], id@),
        ensures
            0 <= i <= l.len(),
            forall|j: int| 0 <= j < i ==> !has_id(#[trigger] list_view(l@)[j], id@),
            i < l.len() ==> has_id(list_view(l@)[i as int], id@),
        decreases l.len() - i,
    {
        if node_has_id(&l[i], id) {
            break;
        }
        i = i + 1;
    }
    proof {
        lemma_first_with_id(list_view(l@), id@);
    }
    if i == l.len() {
        return Err(AppError::NotFound(not_found_message(id)));
    }
    let ghost lv = list_view(l@);
    assert(first_with_id(lv, id@) == Some(i as int));
    let mut l2 = copy_list(l);
    proof {
        lemma_list_view(l2@);
    }
    let target = l2.remove(i);
    let updated = match target {
        YamlNode::Mapping(mut e) => {
            set_opt_exec(&mut e, "name", &patch.name);
            set_opt_exec(&mut e, "api_base", &patch.api_base);
            set_opt_exec(&mut e, "api_key", &patch.api_key);
            set_opt_exec(&mut e, "model", &patch.model);
            YamlNode::Mapping(e)
        },
        other => other,
    };
    let ghost l2r = l2@;
    l2.insert(i, updated);
    proof {
        lemma_list_view(l2@);
        lemma_list_view(l2r);
        assert(list_view(l2@) =~= lv.update(i as int, patched(lv[i as int], *patch)));
    }
    set_providers(cfg, l2);
    Ok(())
}

proof fn lemma_without_id_len(l: Seq<Yaml>, id: Seq<char>)
    ensures
        without_id(l, id).len() <= l.len(),
        without_id(l, id).len() == l.len() <==> forall|j: int|
            0 <= j < l.len() ==> !has_id(#[trigger] l[j], id),
    decreases l.len(),
{
    if l.len() > 0 {
        let t = l.drop_last();
        lemma_without_id_len(t, id);
        if forall|j: int| 0 <= j < l.len() ==> !has_id(#[trigger] l[j], id) {
            assert forall|j: int| 0 <= j < t.len() implies !has_id(#[trigger] t[j], id) by {
                assert(t[j] == l[j]);
            }
        }
        if forall|j: int| 0 <= j < t.len() ==> !has_id(#[trigger] t[j], id) {
            if !has_id(l.last(), id) {
                assert forall|j: int| 0 <= j < l.len() implies !has_id(#[trigger] l[j], id) by {
                    if j < t.len() {
                        assert(t[j] == l[j]);
                    }
                }
            }
        }
    }
}

/// Remove every provider with the id `id`. Fails with `NotFound` when
/// there is no provider list or no provider has the id.
pub fn delete_provider(cfg: &mut YamlNode, id: &str) -> (r: Result<(), AppError>)
    ensures
        match spec_delete_provider(old(cfg)@, id@) {
            Some(c) => r is Ok && final(cfg)@ == c,
            None => final(cfg)@ == old(cfg)@ && (r matches Err(AppError::NotFound(msg)) && msg@
                == provider_not_found(id@)),
        },
{
    let l = match providers_ref(cfg) {
        Some(l) => l,
        None => return Err(AppError::NotFound(not_found_message(id))),
    };
    let ghost lv = list_view(l@);
    proof {
        lemma_list_view(l@);
    }
    let mut kept: Vec<YamlNode> = Vec::new();
    let mut i: usize = 0;
    proof {
        assert(lv.subrange(0, 0) =~= Seq::<Yaml>::empty());
        lemma_list_view(kept@);
    }
    while i < l.len()
        invariant
            0 <= i <= l.len(),
            lv == list_view(l@),
            lv.len() == l.len(),
            forall|j: int| 0 <= j < l.len() ==> #[trigger] lv[j] == ym(l@[j]),
            list_view(kept@) == without_id(lv.subrange(0, i as int), id@),
        decreases l.len() - i,
    {
        let ghost k0 = kept@;
        if !node_has_id(&l[i], id) {
            kept.push(l[i].copy());
            proof {
                lemma_list_view(kept@);
                lemma_list_view(k0);
                assert(list_view(kept@) =~= list_view(k0).push(lv[i as int]));
            }
        }
        proof {
            let s1 = lv.subrange(0, i + 1);
            assert(s1.drop_last() =~= lv.subrange(0, i as int));
            assert(s1.last() == lv[i as int]);
        }
        i = i + 1;
    }
    proof {
        assert(lv.subrange(0, l.len() as int) =~= lv);
        lemma_without_id_len(lv, id@);
        lemma_list_view(kept@);
    }
    if kept.len() == l.len() {
        return Err(AppError::NotFound(not_found_message(id)));
    }
    set_providers(cfg, kept);
    Ok(())
}

/// Law (delete): after a successful `delete_provider`, no provider with the
/// id is left.
pub proof fn law_delete_removes_id(l: Seq<Yaml>, id: Seq<char>)
    ensures
        forall|j: int| 0 <= j < without_id(l, id).len() ==> !has_id(#[trigger] without_id(l, id)[j], id),
    decreases l.len(),
{
    if l.len() > 0 {
        let t = l.drop_last();
        law_delete_removes_id(t, id);
        let r = without_id(t, id);
        if !has_id(l.last(), id) {
            assert forall|j: int| 0 <= j < r.push(l.last()).len() implies !has_id(
                #[trigger] r.push(l.last())[j],
                id,
            ) by {
                if j < r.len() {
                    assert(r.push(l.last())[j] == r[j]);
                }
            }
        }
    }
}


// ── Importing ──────────────────────────────────────────────────────────

/// What importing an external configuration did.
#[derive(Debug)]
pub struct ImportResult {
    /// The external configuration was merged over the current one.
    pub config_merged: bool,
    /// How many preset files were copied.
    pub presets_copied: usize,
}

// ── Reading the providers ──────────────────────────────────────────────

/// A provider as values: id, name, API base, API key, model.
pub open spec fn provider_view(p: ProviderConfig) -> (Seq<char>, Seq<char>, Seq<char>, Seq<char>, Seq<char>) {
    (p.id@, p.name@, p.api_base@, p.api_key@, p.model@)
}

/// A required text field of a stored provider.
pub open spec fn required_str(m: Yaml, k: Seq<char>) -> Option<Seq<char>> {
    match get(m, k) {
        Some(Yaml::Str(s)) => Some(s),
        _ => None,
    }
}

/// An optional text field: `Some(Some(default))` when absent, `None` when
/// present but not text.
pub open spec fn optional_str(m: Yaml, k: Seq<char>, default: Seq<char>) -> Option<Seq<char>> {
    match get(m, k) {
        Some(Yaml::Str(s)) => Some(s),
        Some(_) => None,
        None => Some(default),
    }
}

/// A stored provider read back: a mapping with text `id`, `name` and
/// `api_base`, and `api_key` (default empty) and `model` (default
/// `gpt-4o`) that are text when present.
pub open spec fn read_provider(y: Yaml) -> Option<(Seq<char>, Seq<char>, Seq<char>, Seq<char>, Seq<char>)> {
    if y is Mapping {
        match (required_str(y, "id"@), required_str(y, "name"@), required_str(y, "api_base"@),
            optional_str(y, "api_key"@, Seq::empty()), optional_str(y, "model"@, "gpt-4o"@)) {
            (Some(id), Some(name), Some(base), Some(key), Some(model)) => Some((id, name, base, key, model)),
            _ => None,
        }
    } else {
        None
    }
}

/// All providers of a list read back, or `None` when one of them cannot be.
pub open spec fn read_providers(l: Seq<Yaml>) -> Option<Seq<(Seq<char>, Seq<char>, Seq<char>, Seq<char>, Seq<char>)>>
    decreases l.len(),
{
    if l.len() == 0 {
        Some(Seq::empty())
    } else {
        match (read_providers(l.drop_last()), read_provider(l.last())) {
            (Some(r), Some(p)) => Some(r.push(p)),
            _ => None,
        }
    }
}

/// The configured providers: those of `ai.providers`, or none at all when
/// that list is missing or one of its entries is not a valid provider.
pub open spec fn spec_get_providers(cfg: Yaml) -> Seq<(Seq<char>, Seq<char>, Seq<char>, Seq<char>, Seq<char>)> {
    match providers_of(cfg) {
        Some(l) => match read_providers(l) {
            Some(r) => r,
            None => Seq::empty(),
        },
        None => Seq::empty(),
    }
}

fn read_provider_exec(n: &YamlNode) -> (r: Option<ProviderConfig>)
    ensures
        match r {
            Some(p) => read_provider(n@) == Some(provider_view(p)),
            None => read_provider(n@) is None,
        },
{
    match n {
        YamlNode::Mapping(_) => {},
        _ => {
            return None;
        },
    }
    let id = match get_node(n, "id") {
        Some(YamlNode::Str(s)) => s.clone(),
        _ => {
            return None;
        },
    };
    let name = match get_node(n, "name") {
        Some(YamlNode::Str(s)) => s.clone(),
        _ => {
            return None;
        },
    };
    let api_base = match get_node(n, "api_base") {
        Some(YamlNode::Str(s)) => s.clone(),
        _ => {
            return None;
        },
    };
    let api_key = match get_node(n, "api_key") {
        Some(YamlNode::Str(s)) => s.clone(),
        Some(_) => {
            return None;
        },
        None => String::new(),
    };
    let model = match get_node(n, "model") {
        Some(YamlNode::Str(s)) => s.clone(),
        Some(_) => {
            return None;
        },
        None => String::from_str("gpt-4o"),
    };
    Some(ProviderConfig { id, name, api_base, api_key, model })
}

pub open spec fn providers_view(v: Seq<ProviderConfig>) -> Seq<(Seq<char>, Seq<char>, Seq<char>, Seq<char>, Seq<char>)> {
    v.map_values(|p: ProviderConfig| provider_view(p))
}

/// The configured providers (see [`spec_get_providers`]).
pub fn get_providers(cfg: &YamlNode) -> (r: Vec<ProviderConfig>)
    ensures
        providers_view(r@) == spec_get_providers(cfg@),
{
    let mut out: Vec<ProviderConfig> = Vec::new();
    let l = match providers_ref(cfg) {
        Some(l) => l,
        None => {
            assert(providers_view(out@) =~= Seq::<(Seq<char>, Seq<char>, Seq<char>, Seq<char>, Seq<char>)>::empty());
            return out;
        },
    };
    let ghost lv = list_view(l@);
    proof {
        lemma_list_view(l@);
        assert(lv.subrange(0, 0) =~= Seq::<Yaml>::empty());
        assert(providers_view(out@) =~= Seq::<(Seq<char>, Seq<char>, Seq<char>, Seq<char>, Seq<char>)>::empty());
    }
    let mut i: usize = 0;
    while i < l.len()
        invariant
            0 <= i <= l.len(),
            lv == list_view(l@),
            lv.len() == l.len(),
            providers_of(cfg@) == Some(lv),
            forall|j: int| 0 <= j < l.len() ==> #[trigger] lv[j] == ym(l@[j]),
            read_providers(lv.subrange(0, i as int)) == Some(providers_view(out@)),
        decreases l.len() - i,
    {
        proof {
            let s1 = lv.subrange(0, i + 1);
            assert(s1.drop_last() =~= lv.subrange(0, i as int));
            assert(s1.last() == lv[i as int]);
        }
        match read_provider_exec(&l[i]) {
            Some(p) => {
                let ghost o0 = providers_view(out@);
                out.push(p);
                assert(providers_view(out@) =~= o0.push(provider_view(p)));
            },
            None => {
                proof {
                    assert(lv[i as int] == l@[i as int]@);
                    lemma_read_providers_fails(lv, i as int);
                    assert(providers_of(cfg@) == Some(lv));
                    assert(spec_get_providers(cfg@) == Seq::<(Seq<char>, Seq<char>, Seq<char>, Seq<char>, Seq<char>)>::empty());
                }
                let empty: Vec<ProviderConfig> = Vec::new();
                assert(providers_view(empty@) =~= Seq::<(Seq<char>, Seq<char>, Seq<char>, Seq<char>, Seq<char>)>::empty());
                return empty;
            },
        }
        i = i + 1;
    }
    assert(lv.subrange(0, l.len() as int) =~= lv);
    out
}

/// One entry that cannot be read makes the whole list unreadable.
proof fn lemma_read_providers_fails(l: Seq<Yaml>, i: int)
    requires
        0 <= i < l.len(),
        read_provider(l[i]) is None,
    ensures
        read_providers(l) is None,
    decreases l.len(),
{
    if i < l.len() - 1 {
        assert(l.drop_last()[i] == l[i]);
        lemma_read_providers_fails(l.drop_last(), i);
    }
}

/// The first configured provider with the id `id`.
pub fn get_provider_by_id(cfg: &YamlNode, id: &str) -> (r: Option<ProviderConfig>)
    ensures
        match r {
            Some(p) => exists|i: int| 0 <= i < spec_get_providers(cfg@).len()
                && spec_get_providers(cfg@)[i] == provider_view(p) && p.id@ == id@
                && forall|j: int| 0 <= j < i ==> (#[trigger] spec_get_providers(cfg@)[j]).0 != id@,
            None => forall|j: int| 0 <= j < spec_get_providers(cfg@).len() ==> (#[trigger] spec_get_providers(cfg@)[j]).0 != id@,
        },
{
    let mut ps = get_providers(cfg);
    let ghost pv = providers_view(ps@);
    let mut i: usize = 0;
    while i < ps.len()
        invariant
            0 <= i <= ps.len(),
            pv == providers_view(ps@),
            pv == spec_get_providers(cfg@),
            forall|j: int| 0 <= j < i ==> (#[trigger] pv[j]).0 != id@,
        decreases ps.len() - i,
    {
        assert(pv[i as int] == provider_view(ps@[i as int]));
        if crate::text::str_eq(ps[i].id.as_str(), id) {
            let p = ps.swap_remove(i);
            assert(pv[i as int] == provider_view(p));
            return Some(p);
        }
        i = i + 1;
    }
    None
}

/// A stored provider reads back as itself.
pub proof fn lemma_read_stored_provider(p: ProviderConfig)
    ensures
        read_provider(provider_yaml(p)) == Some(provider_view(p)),
{
    let y = provider_yaml(p);
    reveal_strlit("id");
    reveal_strlit("name");
    reveal_strlit("api_base");
    reveal_strlit("api_key");
    reveal_strlit("model");
    match y {
        Yaml::Mapping(m) => {
            lemma_find_key_is(m, key("id"@), 0);
            assert("id"@.len() != "name"@.len());
            lemma_find_key_is(m, key("name"@), 1);
            assert("id"@.len() != "api_base"@.len());
            assert("name"@.len() != "api_base"@.len());
            lemma_find_key_is(m, key("api_base"@), 2);
            assert("id"@.len() != "api_key"@.len());
            assert("name"@.len() != "api_key"@.len());
            assert("api_base"@.len() != "api_key"@.len());
            lemma_find_key_is(m, key("api_key"@), 3);
            assert("id"@.len() != "model"@.len());
            assert("name"@.len() != "model"@.len());
            assert("api_base"@.len() != "model"@.len());
            assert("api_key"@.len() != "model"@.len());
            lemma_find_key_is(m, key("model"@), 4);
        },
        _ => {},
    }
}

/// Law (an added provider is read back): when every configured provider
/// can be read, adding one makes the configured providers those before
/// and then the new one.
pub proof fn law_add_then_read(cfg: Yaml, p: ProviderConfig)
    requires
        cfg is Mapping,
        providers_of(cfg) matches Some(l) && read_providers(l) is Some,
    ensures
        spec_add_provider(cfg, provider_yaml(p)) matches Some(c)
            && spec_get_providers(c) == read_providers(providers_of(cfg)->0)->0.push(provider_view(p)),
{
    let m = cfg->Mapping_0;
    let l = providers_of(cfg)->0;
    let pn = provider_yaml(p);
    let ai = match lookup(m, key("ai"@)) {
        Some(Yaml::Mapping(a)) => a,
        _ => Seq::empty(),
    };
    assert(get(cfg, "ai"@) == lookup(m, key("ai"@)));
    assert(lookup(ai, key("providers"@)) == Some(Yaml::List(l)));
    let ai2 = ai_with_provider(ai, pn);
    assert(ai2 == set_entry(ai, key("providers"@), Yaml::List(l.push(pn))));
    law_set_entry_lookup(ai, key("providers"@), Yaml::List(l.push(pn)), key("providers"@));
    let c = Yaml::Mapping(set_entry(m, key("ai"@), Yaml::Mapping(ai2)));
    law_set_entry_lookup(m, key("ai"@), Yaml::Mapping(ai2), key("ai"@));
    assert(get(c, "ai"@) == Some(Yaml::Mapping(ai2)));
    assert(providers_of(c) == Some(l.push(pn)));
    lemma_read_stored_provider(p);
    assert(l.push(pn).drop_last() =~= l);
}
} // verus!
