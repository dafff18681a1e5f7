use vancesender::config::{
    add_provider, ai_history_dir, config_path, data_dir, delete_provider, exe_dir_public, get_provider_by_id,
    get_providers, join, merge_defaults, presets_dir, update_config, update_provider, ProviderConfig, ProviderPatch,
};
use vancesender::config_defaults::default_config;
use vancesender::error::AppError;
use vancesender::text::{
    chars_of, decimal_of, lines_exec, parse_i32, parse_i64, parse_u64, signed_decimal_of, split_chars, string_of,
    to_lowercase, to_uppercase, trim_str, words_exec,
};
use vancesender::yaml::{get_bool, get_i64, get_node2, get_section, get_str, YamlNode};

fn s(x: &str) -> YamlNode {
    YamlNode::Str(x.to_string())
}

fn map(entries: Vec<(&str, YamlNode)>) -> YamlNode {
    YamlNode::Mapping(entries.into_iter().map(|(k, v)| (s(k), v)).collect())
}

fn vs(v: Vec<Vec<char>>) -> Vec<String> {
    v.iter().map(|x| string_of(x)).collect()
}

fn provider(id: &str, name: &str) -> ProviderConfig {
    ProviderConfig {
        id: id.to_string(),
        name: name.to_string(),
        api_base: "https://api.example.com/v1".to_string(),
        api_key: "k".to_string(),
        model: "gpt-4o".to_string(),
    }
}

#[test]
fn trim_and_split() {
    assert_eq!(trim_str("  a b \t\n"), "a b");
    assert_eq!(vs(split_chars(&chars_of("a/b//c"), '/')), vec!["a", "b", "", "c"]);
    assert_eq!(vs(lines_exec(&chars_of("x\r\ny\n\nz\n"))), vec!["x", "y", "", "z"]);
    assert_eq!(vs(words_exec(&chars_of("  TCP   0.0.0.0:8730 \t LISTENING  "))), vec!["TCP", "0.0.0.0:8730", "LISTENING"]);
    assert!(words_exec(&chars_of("   ")).is_empty());
}

#[test]
fn numbers_parse_and_print() {
    assert_eq!(parse_u64(&chars_of("+42")), Some(42));
    assert_eq!(parse_u64(&chars_of("18446744073709551616")), None);
    assert_eq!(parse_i32(&chars_of("-2147483648")), Some(i32::MIN));
    assert_eq!(parse_i32(&chars_of("2147483648")), None);
    assert_eq!(parse_i64(&chars_of("-9223372036854775808")), Some(i64::MIN));
    assert_eq!(parse_i64(&chars_of("12a")), None);
    assert_eq!(parse_i64(&chars_of("")), None);
    assert_eq!(decimal_of(0), "0");
    assert_eq!(decimal_of(8730), "8730");
    assert_eq!(signed_decimal_of(-15), "-15");
}

#[test]
fn case_mapping_wrappers() {
    assert_eq!(to_lowercase("FiveM GTA"), "fivem gta");
    assert_eq!(to_uppercase("enter"), "ENTER");
}

#[test]
fn paths_of_the_install() {
    assert_eq!(exe_dir_public(Some("/opt/vs/vancesender")), "/opt/vs");
    assert_eq!(exe_dir_public(Some("C:\\VS\\vs.exe")), "C:\\VS");
    assert_eq!(exe_dir_public(Some("/vs")), "/");
    assert_eq!(exe_dir_public(None), ".");
    assert_eq!(config_path("/opt/vs"), "/opt/vs/config.yaml");
    assert_eq!(data_dir("/opt/vs/"), "/opt/vs/data");
    assert_eq!(presets_dir("/opt/vs"), "/opt/vs/data/presets");
    assert_eq!(ai_history_dir("/opt/vs"), "/opt/vs/data/ai_history");
    assert_eq!(join("", "x"), "x");
}

#[test]
fn default_config_values() {
    let cfg = default_config();
    assert_eq!(get_str(&cfg, "server", "host"), "127.0.0.1");
    assert_eq!(get_i64(&cfg, "server", "port", 0), 8730);
    assert!(!get_bool(&cfg, "server", "lan_access"));
    assert_eq!(get_str(&cfg, "launch", "close_action"), "ask");
    assert!(get_bool(&cfg, "launch", "enable_tray_on_start"));
    assert_eq!(get_i64(&cfg, "sender", "delay_between_lines", 0), 1800);
    assert_eq!(get_str(&cfg, "quick_overlay", "trigger_hotkey"), "f7");
    assert_eq!(get_i64(&cfg, "public_config", "cache_ttl_seconds", 0), 120);
    assert!(get_providers(&cfg).is_empty());
    match get_node2(&cfg, "quick_overlay", "theme") {
        Some(YamlNode::Mapping(m)) => assert_eq!(m.len(), 3),
        _ => panic!("theme section missing"),
    }
}

#[test]
fn update_then_read_back() {
    let mut cfg = default_config();
    update_config(&mut cfg, &map(vec![("sender", map(vec![("delay_open_chat", YamlNode::PosInt(500))]))]));
    assert_eq!(get_i64(&cfg, "sender", "delay_open_chat", 0), 500);
    assert_eq!(get_i64(&cfg, "sender", "delay_after_paste", 0), 160);
    assert_eq!(get_str(&cfg, "server", "host"), "127.0.0.1");
}

#[test]
fn merge_defaults_keeps_loaded_values() {
    let mut cfg = map(vec![("server", map(vec![("port", YamlNode::PosInt(9000))]))]);
    merge_defaults(&mut cfg, default_config());
    assert_eq!(get_i64(&cfg, "server", "port", 0), 9000);
    assert_eq!(get_str(&cfg, "server", "host"), "127.0.0.1");
    assert_eq!(get_str(&cfg, "sender", "method"), "clipboard");
}

#[test]
fn get_section_missing_is_empty_mapping() {
    let cfg = default_config();
    match get_section(&cfg, "nope") {
        YamlNode::Mapping(m) => assert!(m.is_empty()),
        _ => panic!("expected a mapping"),
    }
    assert_eq!(get_str(&cfg, "nope", "x"), "");
}

#[test]
fn providers_add_read_update_delete() {
    let mut cfg = default_config();
    assert!(add_provider(&mut cfg, provider("p1", "One")).is_ok());
    assert!(add_provider(&mut cfg, provider("p2", "Two")).is_ok());
    let ps = get_providers(&cfg);
    assert_eq!(ps.len(), 2);
    assert_eq!(ps[1].name, "Two");
    let patch = ProviderPatch { name: Some("Uno".to_string()), api_base: None, api_key: None, model: Some("m2".to_string()) };
    assert!(update_provider(&mut cfg, "p1", &patch).is_ok());
    let p1 = get_provider_by_id(&cfg, "p1").unwrap();
    assert_eq!(p1.name, "Uno");
    assert_eq!(p1.model, "m2");
    assert_eq!(p1.api_key, "k");
    assert!(delete_provider(&mut cfg, "p1").is_ok());
    assert_eq!(get_providers(&cfg).len(), 1);
    assert!(get_provider_by_id(&cfg, "p1").is_none());
}

#[test]
fn provider_errors() {
    let mut cfg = default_config();
    match delete_provider(&mut cfg, "zz") {
        Err(AppError::NotFound(m)) => assert_eq!(m, "provider 'zz' not found"),
        _ => panic!("expected NotFound"),
    }
    let patch = ProviderPatch { name: None, api_base: None, api_key: None, model: None };
    assert!(matches!(update_provider(&mut cfg, "zz", &patch), Err(AppError::NotFound(_))));
    let mut not_map = YamlNode::Null;
    match add_provider(&mut not_map, provider("a", "b")) {
        Err(AppError::Internal(m)) => assert_eq!(m, "config is not a mapping"),
        _ => panic!("expected Internal"),
    }
}

#[test]
fn providers_defaults_and_invalid_entries() {
    let good = map(vec![("id", s("a")), ("name", s("A")), ("api_base", s("u"))]);
    let cfg = map(vec![("ai", map(vec![("providers", YamlNode::List(vec![good]))]))]);
    let ps = get_providers(&cfg);
    assert_eq!(ps.len(), 1);
    assert_eq!(ps[0].api_key, "");
    assert_eq!(ps[0].model, "gpt-4o");
    let bad = map(vec![("id", s("b")), ("name", YamlNode::PosInt(3)), ("api_base", s("u"))]);
    let good2 = map(vec![("id", s("a")), ("name", s("A")), ("api_base", s("u"))]);
    let cfg2 = map(vec![("ai", map(vec![("providers", YamlNode::List(vec![good2, bad]))]))]);
    assert!(get_providers(&cfg2).is_empty());
}
