//! The public announcement shown in the app: where it is fetched from, and
//! how a fetched payload becomes the result the settings page shows.
use vstd::prelude::*;

use crate::yaml::{YamlNode, Yaml, get, get2, get_node};
use crate::stamp::now_iso;
use crate::json::{json_text, json_text_of, json_tree_of, node_of_json, parse_json_tree};

verus! {

/// What the announcement check found.
#[derive(Debug)]
pub struct PublicConfigResult {
    pub success: bool,
    pub visible: bool,
    pub source_url: Option<String>,
    pub title: Option<String>,
    pub content: Option<String>,
    pub message: String,
    pub fetched_at: Option<String>,
    pub link_url: Option<String>,
    pub link_text: Option<String>,
}

/// The members of a payload that parsed as YAML or JSON: `visible` (false
/// unless a boolean), `title`, `link_url` and `link_text` where they are
/// strings, and `content` as a string, or as JSON text when it is another
/// value.
#[derive(Debug)]
pub struct PayloadFields {
    pub visible: bool,
    pub title: Option<String>,
    pub content: Option<String>,
    pub link_url: Option<String>,
    pub link_text: Option<String>,
}

/// The announcement file of a repository, on its `main` branch.
pub open spec fn spec_default_source_url(repository: Seq<char>) -> Seq<char> {
    "https://raw.githubusercontent.com/"@ + repository + "/main/public-config.yaml"@
}

pub fn default_source_url(repository: &str) -> (r: String)
    ensures
        r@ == spec_default_source_url(repository@),
{
    String::from_str("https://raw.githubusercontent.com/").concat(repository).concat("/main/public-config.yaml")
}

/// Where the announcement is fetched from: `public_config.source_url` when
/// it is a non-empty string, else the repository's file.
pub open spec fn spec_source_url(cfg: Yaml, repository: Seq<char>) -> Seq<char> {
    match get2(cfg, "public_config"@, "source_url"@) {
        Some(Yaml::Str(s)) => if s.len() > 0 { s } else { spec_default_source_url(repository) },
        _ => spec_default_source_url(repository),
    }
}

pub fn source_url(cfg: &YamlNode, repository: &str) -> (r: String)
    ensures
        r@ == spec_source_url(cfg@, repository@),
{
    match crate::yaml::get_node2(cfg, "public_config", "source_url") {
        Some(YamlNode::Str(s)) => if !s.as_str().is_empty() {
            s.clone()
        } else {
            default_source_url(repository)
        },
        _ => default_source_url(repository),
    }
}

/// How long a fetched announcement is reused, in milliseconds:
/// `public_config.cache_ttl_seconds` when it is a whole non-negative
/// number of seconds, 120 s when it is missing or not a number, and `None`
/// for a fractional or negative number, which is read as floating-point
/// seconds outside this library.
pub open spec fn spec_cache_ttl_ms(cfg: Yaml) -> Option<u128> {
    match get2(cfg, "public_config"@, "cache_ttl_seconds"@) {
        Some(Yaml::PosInt(n)) => Some((n * 1000) as u128),
        Some(Yaml::NegInt(_)) => None,
        Some(Yaml::Float(_)) => None,
        _ => Some(120000),
    }
}

pub fn cache_ttl_ms(cfg: &YamlNode) -> (r: Option<u128>)
    ensures
        r == spec_cache_ttl_ms(cfg@),
{
    match crate::yaml::get_node2(cfg, "public_config", "cache_ttl_seconds") {
        Some(YamlNode::PosInt(n)) => Some((*n as u128) * 1000),
        Some(YamlNode::NegInt(_)) => None,
        Some(YamlNode::Float(_)) => None,
        _ => Some(120000),
    }
}

/// Whether the cached announcement, fetched `age_ms` ago (`None` when
/// there is none), answers a check: only when no refresh is forced and it
/// is younger than `ttl_ms`.
pub fn cache_fresh(force_refresh: bool, age_ms: Option<u128>, ttl_ms: u128) -> (r: bool)
    ensures
        r == (!force_refresh && (age_ms matches Some(a) && a < ttl_ms)),
{
    if force_refresh {
        return false;
    }
    match age_ms {
        Some(a) => a < ttl_ms,
        None => false,
    }
}

pub open spec fn opt(o: Option<String>) -> Option<Seq<char>> {
    match o {
        Some(s) => Some(s@),
        None => None,
    }
}

/// The result of a fetched payload `raw`, stamped `fetched_at`: with its
/// fields when it parsed (`ok`), else the whole text as content
/// (`text/plain`).
pub fn payload_result(fields: Option<PayloadFields>, raw: &str, source_url: &str, fetched_at: String) -> (r: PublicConfigResult)
    ensures
        r.success,
        opt(r.source_url) == Some(source_url@),
        r.fetched_at == Some(fetched_at),
        match fields {
            None => {
                &&& r.visible
                &&& r.title is None
                &&& opt(r.content) == Some(raw@)
                &&& r.message@ == "text/plain"@
                &&& r.link_url is None
                &&& r.link_text is None
            },
            Some(f) => {
                &&& r.visible == f.visible
                &&& r.title == f.title
                &&& r.content == f.content
                &&& r.message@ == "ok"@
                &&& r.link_url == f.link_url
                &&& r.link_text == f.link_text
            },
        },
{
    match fields {
        None => PublicConfigResult {
            success: true,
            visible: true,
            source_url: Some(String::from_str(source_url)),
            title: None,
            content: Some(String::from_str(raw)),
            message: String::from_str("text/plain"),
            fetched_at: Some(fetched_at),
            link_url: None,
            link_text: None,
        },
        Some(f) => PublicConfigResult {
            success: true,
            visible: f.visible,
            source_url: Some(String::from_str(source_url)),
            title: f.title,
            content: f.content,
            message: String::from_str("ok"),
            fetched_at: Some(fetched_at),
            link_url: f.link_url,
            link_text: f.link_text,
        },
    }
}

/// The result when the fetch failed with `message` (the HTTP status as
/// `HTTP <status>`, or `请求失败: <error>`).
pub fn failure(source_url: &str, message: String) -> (r: PublicConfigResult)
    ensures
        !r.success,
        !r.visible,
        opt(r.source_url) == Some(source_url@),
        r.title is None && r.content is None && r.fetched_at is None,
        r.link_url is None && r.link_text is None,
        r.message == message,
{
    PublicConfigResult {
        success: false,
        visible: false,
        source_url: Some(String::from_str(source_url)),
        title: None,
        content: None,
        message,
        fetched_at: None,
        link_url: None,
        link_text: None,
    }
}

/// The message of a failed fetch: `HTTP <status>` for an answer with a
/// failure status (as the HTTP library shows it), `请求失败: <error>` when
/// no answer came.
pub fn failure_message(http_status: Option<&str>, error: &str) -> (r: String)
    ensures
        match http_status {
            Some(s) => r@ == "HTTP "@ + s@,
            None => r@ == "请求失败: "@ + error@,
        },
{
    match http_status {
        Some(s) => String::from_str("HTTP ").concat(s),
        None => String::from_str("请求失败: ").concat(error),
    }
}

// ── Reading a fetched payload ──────────────────────────────────────────

/// Name for what `serde_yaml::from_str::<serde_yaml::Value>` makes of
/// `raw`, taken into a JSON value by `serde_json::to_value` (the default
/// `null` where that fails): the value as a tree, or `None` when `raw` is
/// not YAML.
pub uninterp spec fn yaml_json_tree_of(raw: Seq<char>) -> Option<Yaml>;

/// `serde_yaml::from_str::<serde_yaml::Value>`, then
/// `serde_json::to_value` (its default where it fails), as a tree.
#[verifier::external_body]
fn yaml_json_tree(raw: &str) -> (r: Option<YamlNode>)
    ensures
        match r {
            Some(n) => yaml_json_tree_of(raw@) == Some(n@),
            None => yaml_json_tree_of(raw@) is None,
        },
{
    match serde_yaml::from_str::<serde_yaml::Value>(raw) {
        Ok(y) => Some(node_of_json(&serde_json::to_value(y).unwrap_or_default())),
        Err(_) => None,
    }
}

/// The tree of a fetched payload: its YAML reading (as JSON), else its
/// JSON reading; `None` when it is neither.
pub open spec fn payload_tree_of(raw: Seq<char>) -> Option<Yaml> {
    match yaml_json_tree_of(raw) {
        Some(t) => Some(t),
        None => match json_tree_of(raw) {
            Ok(t) => Some(t),
            Err(_) => None,
        },
    }
}

pub fn parse_payload_tree(raw: &str) -> (r: Option<YamlNode>)
    ensures
        match r {
            Some(n) => payload_tree_of(raw@) == Some(n@),
            None => payload_tree_of(raw@) is None,
        },
{
    match yaml_json_tree(raw) {
        Some(t) => Some(t),
        None => match parse_json_tree(raw) {
            Ok(t) => Some(t),
            Err(_) => None,
        },
    }
}

/// The string member `key` of a payload, where it is a string.
pub open spec fn str_member(data: Yaml, key: Seq<char>) -> Option<Seq<char>> {
    match get(data, key) {
        Some(Yaml::Str(t)) => Some(t),
        _ => None,
    }
}

/// `visible`: the boolean member, false when missing or not a boolean.
pub open spec fn visible_member(data: Yaml) -> bool {
    match get(data, "visible"@) {
        Some(Yaml::Bool(b)) => b,
        _ => false,
    }
}

/// `content`: a string member as it is, any other value as its JSON text.
pub open spec fn content_member(data: Yaml) -> Option<Seq<char>> {
    match get(data, "content"@) {
        Some(Yaml::Str(t)) => Some(t),
        Some(v) => Some(json_text_of(v)),
        None => None,
    }
}

fn str_member_exec(data: &YamlNode, key: &str) -> (r: Option<String>)
    ensures
        opt(r) == str_member(data@, key@),
{
    match get_node(data, key) {
        Some(YamlNode::Str(t)) => Some(t.clone()),
        _ => None,
    }
}

/// The members of a parsed payload that the result shows.
pub fn payload_fields(data: &YamlNode) -> (r: PayloadFields)
    ensures
        r.visible == visible_member(data@),
        opt(r.title) == str_member(data@, "title"@),
        opt(r.content) == content_member(data@),
        opt(r.link_url) == str_member(data@, "link_url"@),
        opt(r.link_text) == str_member(data@, "link_text"@),
{
    let visible = match get_node(data, "visible") {
        Some(YamlNode::Bool(b)) => *b,
        _ => false,
    };
    let content = match get_node(data, "content") {
        Some(YamlNode::Str(t)) => Some(t.clone()),
        Some(v) => Some(json_text(v)),
        None => None,
    };
    PayloadFields {
        visible,
        title: str_member_exec(data, "title"),
        content,
        link_url: str_member_exec(data, "link_url"),
        link_text: str_member_exec(data, "link_text"),
    }
}

/// A result, but for the time it was fetched.
pub struct PublicConfigView {
    pub success: bool,
    pub visible: bool,
    pub source_url: Option<Seq<char>>,
    pub title: Option<Seq<char>>,
    pub content: Option<Seq<char>>,
    pub message: Seq<char>,
    pub link_url: Option<Seq<char>>,
    pub link_text: Option<Seq<char>>,
}

pub open spec fn result_view(r: PublicConfigResult) -> PublicConfigView {
    PublicConfigView {
        success: r.success,
        visible: r.visible,
        source_url: opt(r.source_url),
        title: opt(r.title),
        content: opt(r.content),
        message: r.message@,
        link_url: opt(r.link_url),
        link_text: opt(r.link_text),
    }
}

/// The result of a fetched payload `raw` whose tree is `tree`: its members
/// when it parsed (`ok`), else the whole text as visible content
/// (`text/plain`).
pub open spec fn spec_parse_remote_payload(tree: Option<Yaml>, raw: Seq<char>, source_url: Seq<char>) -> PublicConfigView {
    match tree {
        None => PublicConfigView {
            success: true,
            visible: true,
            source_url: Some(source_url),
            title: None,
            content: Some(raw),
            message: "text/plain"@,
            link_url: None,
            link_text: None,
        },
        Some(d) => PublicConfigView {
            success: true,
            visible: visible_member(d),
            source_url: Some(source_url),
            title: str_member(d, "title"@),
            content: content_member(d),
            message: "ok"@,
            link_url: str_member(d, "link_url"@),
            link_text: str_member(d, "link_text"@),
        },
    }
}

/// The result of a fetched payload whose tree is `tree` (as
/// [`parse_payload_tree`] gives it), stamped `fetched_at`.
pub fn payload_result_of_tree(tree: Option<YamlNode>, raw: &str, source_url: &str, fetched_at: String) -> (r: PublicConfigResult)
    ensures
        result_view(r) == spec_parse_remote_payload(
            match tree {
                Some(n) => Some(n@),
                None => None,
            },
            raw@,
            source_url@,
        ),
        r.fetched_at == Some(fetched_at),
{
    let fields = match &tree {
        Some(d) => Some(payload_fields(d)),
        None => None,
    };
    payload_result(fields, raw, source_url, fetched_at)
}

/// The result of a fetched payload `raw`: parsed as YAML, else as JSON,
/// else kept as plain text; stamped with the current time.
pub fn parse_remote_payload(raw: &str, source_url: &str) -> (r: PublicConfigResult)
    ensures
        result_view(r) == spec_parse_remote_payload(payload_tree_of(raw@), raw@, source_url@),
        r.fetched_at is Some,
{
    let tree = parse_payload_tree(raw);
    payload_result_of_tree(tree, raw, source_url, now_iso())
}

} // verus!
