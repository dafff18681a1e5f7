use vancesender::api::ai::{default_limit as ai_default_limit, default_text_type, HistoryQuery as AiHistoryQuery};
use vancesender::api::presets::{
    import_item, import_item_with, new_from_request, place_at, preset_from_request, ImportItem, ListQuery,
    PresetCreateRequest, PresetUpdateRequest,
};
use vancesender::api::sender::{default_limit, default_source, progress_record, HistoryQuery, SendBatchRequest, SendSingleRequest};
use vancesender::api::settings::{
    lan_urls, provider_from_input, provider_from_input_with, section_patch, summarize_all, ClearQuery, ProviderInput,
    UpdateQuery, WindowActionRequest,
};
use vancesender::api::{authorize, ct_eq};
use vancesender::config::{update_config, ProviderConfig};
use vancesender::config_defaults::default_config;
use vancesender::error::AppError;
use vancesender::gui::{
    apply_list_edit, close_decision, collect_tags, command_line, load_settings, progress_label, sender_patch, toggle_tag,
    text_prefix, type_badge, visible_presets, AiState, AsyncResult, CloseDecision, HomeState, Notice, Panel, PresetCardAction,
    QuickOverlayState, QuickSendState, SendState, SettingsState, SettingsTab, TextEntry, TextItem, TextListAction,
    TrayCommand, WindowModel,
};
use vancesender::network::lan_addresses;
use vancesender::presets::{Preset, TextLine};
use vancesender::public_config::{
    default_source_url, failure, failure_message, parse_remote_payload, payload_result, source_url, PayloadFields,
    PublicConfigResult,
};
use vancesender::sender::SendProgress;
use vancesender::startup::resolve_endpoint;
use vancesender::update_checker::failure_result;
use vancesender::yaml::{get_i64, get_str, YamlNode};

fn s(x: &str) -> YamlNode {
    YamlNode::Str(x.to_string())
}

fn map(entries: Vec<(&str, YamlNode)>) -> YamlNode {
    YamlNode::Mapping(entries.into_iter().map(|(k, v)| (s(k), v)).collect())
}

fn with_token(t: &str) -> YamlNode {
    let mut cfg = default_config();
    update_config(&mut cfg, &map(vec![("server", map(vec![("token", s(t))]))]));
    cfg
}

fn preset(name: &str, tags: &[&str]) -> Preset {
    Preset {
        id: name.to_string(),
        name: name.to_string(),
        texts: vec![],
        tags: tags.iter().map(|t| t.to_string()).collect(),
        sort_order: 0,
        created_at: String::new(),
        updated_at: String::new(),
    }
}

fn item(name: Option<&str>, id: Option<&str>) -> ImportItem {
    ImportItem {
        name: name.map(|x| x.to_string()),
        id: id.map(|x| x.to_string()),
        texts: vec![TextLine { text_type: "me".to_string(), content: "c".to_string() }],
        tags: vec!["t".to_string()],
        sort_order: None,
        created_at: None,
    }
}

fn model() -> WindowModel {
    WindowModel { home_state: HomeState::default(), send_state: SendState::default(), ai_state: AiState::default() }
}

#[test]
fn tokens_are_checked() {
    assert!(ct_eq(b"abc", b"abc"));
    assert!(!ct_eq(b"abc", b"abd"));
    assert!(!ct_eq(b"abc", b"ab"));
    assert!(authorize(&default_config(), "", ""));
    let cfg = with_token(" 秘密 ");
    assert!(authorize(&cfg, "Bearer  秘密 ", ""));
    assert!(!authorize(&cfg, "Bearer x", "token=秘密"));
    assert!(authorize(&cfg, "", "a=1&vs_token=%E7%A7%98%E5%AF%86"));
    assert!(authorize(&cfg, "Basic zz", "token=%E7%A7%98%E5%AF%86"));
    assert!(!authorize(&cfg, "", "a=1"));
    assert!(!authorize(&cfg, "", ""));
}

#[test]
fn request_defaults() {
    assert_eq!(ai_default_limit(), 20);
    assert_eq!(AiHistoryQuery::default().limit, 20);
    assert_eq!(default_limit(), 50);
    assert_eq!(HistoryQuery::default().offset, 0);
    assert_eq!(default_source(), "webui");
    assert_eq!(default_text_type(), "mixed");
    let single = SendSingleRequest { text: "x".to_string(), source: default_source() };
    let batch = SendBatchRequest { texts: vec![single.text.clone()], delay_between: None, source: single.source.clone() };
    assert_eq!(batch.texts.len(), 1);
    let q = ListQuery { tag: None };
    assert!(q.tag.is_none());
    let u = UpdateQuery { include_prerelease: false };
    let c = ClearQuery { clear: true };
    let w = WindowActionRequest { action: "min".to_string() };
    assert!(!u.include_prerelease && c.clear && w.action == "min");
}

#[test]
fn progress_goes_to_history() {
    let p = |st: &str, t: Option<&str>| SendProgress {
        status: st.to_string(),
        index: 0,
        total: 1,
        text: t.map(|x| x.to_string()),
        error: None,
    };
    assert_eq!(progress_record(&p("sent", Some("a"))), Some(("a".to_string(), true)));
    assert_eq!(progress_record(&p("error", Some("a"))), Some(("a".to_string(), false)));
    assert_eq!(progress_record(&p("sending", Some("a"))), None);
    assert_eq!(progress_record(&p("complete", None)), None);
}

#[test]
fn presets_through_the_api() {
    let req = PresetCreateRequest { name: "n".to_string(), texts: vec![], tags: vec!["a".to_string()], sort_order: 3 };
    let p = preset_from_request(req, "id".to_string(), "t".to_string());
    assert_eq!((p.id.as_str(), p.sort_order, p.created_at.as_str()), ("id", 3, "t"));
    let fresh = new_from_request(PresetCreateRequest { name: "m".to_string(), texts: vec![], tags: vec![], sort_order: 0 });
    assert_eq!(fresh.id.len(), 36);
    let patch = PresetUpdateRequest { name: Some("x".to_string()), texts: None, tags: None, sort_order: None }.into_patch();
    assert_eq!(patch.name.as_deref(), Some("x"));
    let mut q = preset("q", &[]);
    place_at(&mut q, 4, "t2".to_string());
    assert_eq!((q.sort_order, q.updated_at.as_str()), (4, "t2"));
}

#[test]
fn import_rules() {
    assert!(import_item_with(item(Some("  "), None), "f".to_string(), "now".to_string()).is_none());
    assert!(import_item_with(item(None, Some("x")), "f".to_string(), "now".to_string()).is_none());
    let a = import_item_with(item(Some(" 名 "), Some("")), "f".to_string(), "now".to_string()).unwrap();
    assert_eq!((a.id.as_str(), a.name.as_str(), a.created_at.as_str(), a.sort_order), ("f", "名", "now", 0));
    let mut it = item(Some("n"), Some("keep"));
    it.created_at = Some("old".to_string());
    it.sort_order = Some(9);
    let b = import_item_with(it, "f".to_string(), "now".to_string()).unwrap();
    assert_eq!((b.id.as_str(), b.created_at.as_str(), b.updated_at.as_str(), b.sort_order), ("keep", "old", "now", 9));
    let c = import_item(item(Some("n"), None)).unwrap();
    assert_eq!(c.id.len(), 36);
    assert_eq!(c.created_at, c.updated_at);
}

#[test]
fn settings_helpers() {
    let ps = vec![ProviderConfig {
        id: "a".to_string(),
        name: "A".to_string(),
        api_base: "b".to_string(),
        api_key: "secret".to_string(),
        model: "m".to_string(),
    }];
    let sums = summarize_all(&ps);
    assert!(sums[0].api_key_set);
    assert_eq!(sums[0].model, "m");
    assert_eq!(lan_urls(&vec!["192.168.1.5".to_string()], 8730), vec!["http://192.168.1.5:8730".to_string()]);
    let mut cfg = default_config();
    update_config(&mut cfg, &section_patch("sender", map(vec![("retry_count", YamlNode::PosInt(5))])));
    assert_eq!(get_i64(&cfg, "sender", "retry_count", 0), 5);
    assert_eq!(get_str(&cfg, "sender", "method"), "clipboard");
}

#[test]
fn provider_create_rules() {
    let input = |name: Option<&str>, id: Option<&str>| ProviderInput {
        id: id.map(|x| x.to_string()),
        name: name.map(|x| x.to_string()),
        api_base: None,
        api_key: Some("k".to_string()),
        model: None,
    };
    match provider_from_input_with(input(None, None), "f".to_string()) {
        Err(AppError::BadRequest(m)) => assert_eq!(m, "名称不能为空"),
        _ => panic!("expected BadRequest"),
    }
    let p = provider_from_input_with(input(Some("N"), Some("")), "f".to_string()).unwrap();
    assert_eq!((p.id.as_str(), p.api_base.as_str(), p.api_key.as_str(), p.model.as_str()), ("f", "", "k", "gpt-4o"));
    let q = provider_from_input(input(Some("N"), Some("mine"))).unwrap();
    assert_eq!(q.id, "mine");
    assert_eq!(provider_from_input(input(Some("N"), None)).unwrap().id.len(), 36);
}

#[test]
fn gui_state_defaults() {
    assert!(Panel::default() == Panel::Home);
    assert!(SettingsTab::default() == SettingsTab::Sender);
    assert_eq!(TextEntry::default().text_type, "me");
    assert!(!QuickOverlayState::default().loaded);
    assert!(QuickSendState::default().sending_line.is_none());
    assert!(SettingsState::default().method.is_empty());
    let _ = (PresetCardAction::Use("x".to_string()), TrayCommand::Exit, TextItem { text_type: "me".to_string(), content: String::new() });
}

#[test]
fn finished_tasks_update_the_window() {
    let mut m = model();
    let mut u = failure_result("1.0".to_string(), "m".to_string(), "x", None);
    u.update_available = true;
    u.latest_version = Some("2.0".to_string());
    match m.apply(AsyncResult::UpdateCheckDone(u)) {
        (Some(Notice::Info(t)), false) => assert_eq!(t, "发现新版本: 2.0"),
        _ => panic!("expected an info notice"),
    }
    assert!(m.home_state.update_result.is_some());
    m.ai_state.generating = true;
    let (n, redraw) = m.apply(AsyncResult::AiStreamChunk("你".to_string()));
    assert!(n.is_none() && redraw);
    m.apply(AsyncResult::AiStreamChunk("好".to_string()));
    assert_eq!(m.ai_state.stream_content, "你好");
    let lines = vec![TextLine { text_type: "me".to_string(), content: "a".to_string() }];
    match m.apply(AsyncResult::AiStreamDone { texts: lines, provider_id: "p".to_string() }) {
        (Some(Notice::Success(t)), _) => assert_eq!(t, "AI 生成完成"),
        _ => panic!("expected success"),
    }
    assert!(!m.ai_state.generating && m.ai_state.stream_content.is_empty() && m.ai_state.generated_texts.len() == 1);
    match m.apply(AsyncResult::AiGenerateError("boom".to_string())) {
        (Some(Notice::Error(t)), _) => assert_eq!(t, "AI 错误: boom"),
        _ => panic!("expected error"),
    }
    m.send_state.sending = true;
    let prog = SendProgress { status: "sent".to_string(), index: 1, total: 3, text: None, error: None };
    assert!(m.apply(AsyncResult::BatchSendProgress(prog)).1);
    assert_eq!((m.send_state.progress_index, m.send_state.progress_total), (1, 3));
    m.apply(AsyncResult::BatchSendDone);
    assert!(!m.send_state.sending);
    match m.apply(AsyncResult::AiProviderTestDone { provider_id: "p".to_string(), success: false, message: "bad".to_string() }) {
        (Some(Notice::Error(t)), _) => assert_eq!(t, "p: bad"),
        _ => panic!("expected error"),
    }
    match m.apply(AsyncResult::SendSingleDone { text: "x".to_string(), success: true }) {
        (Some(Notice::Success(t)), false) => assert_eq!(t, "已发送: x"),
        other => panic!("{other:?}"),
    }
    match m.apply(AsyncResult::SendSingleDone { text: "/me 你好你好你好你好".to_string(), success: false }) {
        (Some(Notice::Error(t)), false) => assert_eq!(t, "发送失败: /me 你好你好你"),
        other => panic!("{other:?}"),
    }
    assert_eq!(text_prefix("abcdefghijklmnopqrstuvwxyz", 20), "abcdefghijklmnopqrst");
    assert_eq!(text_prefix("é", 1), "");
    assert_eq!(text_prefix("", 20), "");
}

#[test]
fn closing_the_window() {
    assert!(close_decision(true, "ask") == CloseDecision::Close);
    assert!(close_decision(false, "minimize_to_tray") == CloseDecision::HideToTray);
    assert!(close_decision(false, "exit") == CloseDecision::Close);
    assert!(close_decision(false, "ask") == CloseDecision::Ask);
}

#[test]
fn settings_form_round_trip() {
    let mut ss = SettingsState::default();
    load_settings(&mut ss, &default_config());
    assert_eq!((ss.method.as_str(), ss.delay_open_chat.as_str(), ss.port.as_str()), ("clipboard", "450", "8730"));
    assert_eq!(ss.trigger_hotkey, "f7");
    ss.delay_open_chat = "600".to_string();
    ss.retry_count = "abc".to_string();
    ss.focus_timeout = "-5".to_string();
    let mut cfg = default_config();
    update_config(&mut cfg, &sender_patch(&ss));
    let mut back = SettingsState::default();
    load_settings(&mut back, &cfg);
    assert_eq!(back.delay_open_chat, "600");
    assert_eq!(back.retry_count, "3");
    assert_eq!(back.focus_timeout, "-5");
}

#[test]
fn preset_tags_and_filter() {
    let ps = vec![preset("Beta", &["z", "a"]), preset("alpha", &["a"]), preset("Gamma", &[])];
    assert_eq!(collect_tags(&ps), vec!["a".to_string(), "z".to_string()]);
    assert_eq!(visible_presets(&ps, "", None), vec![0, 1, 2]);
    assert_eq!(visible_presets(&ps, "AL", None), vec![1]);
    assert_eq!(visible_presets(&ps, "", Some("a")), vec![0, 1]);
    assert_eq!(visible_presets(&ps, "ga", Some("a")), Vec::<usize>::new());
    let mut sel: Option<String> = None;
    toggle_tag(&mut sel, &"a".to_string());
    assert_eq!(sel.as_deref(), Some("a"));
    toggle_tag(&mut sel, &"a".to_string());
    assert!(sel.is_none());
}

#[test]
fn text_list_edits() {
    let it = |c: &str| TextItem { text_type: "me".to_string(), content: c.to_string() };
    let mut items = vec![it("1"), it("2"), it("3")];
    assert!(matches!(apply_list_edit(&mut items, None, None, Some(0)), TextListAction::Changed));
    assert!(matches!(apply_list_edit(&mut items, None, Some(1), None), TextListAction::Changed));
    let order: Vec<&str> = items.iter().map(|i| i.content.as_str()).collect();
    assert_eq!(order, vec!["1", "2", "3"]);
    assert!(matches!(apply_list_edit(&mut items, None, None, Some(2)), TextListAction::Unchanged));
    assert!(matches!(apply_list_edit(&mut items, None, Some(0), None), TextListAction::Unchanged));
    assert!(matches!(apply_list_edit(&mut items, Some(1), Some(2), None), TextListAction::Changed));
    assert_eq!(items.len(), 2);
    assert_eq!(type_badge("do"), "/do");
    assert_eq!(type_badge("x"), "/??");
}

#[test]
fn send_and_ai_panels() {
    let mut st = SendState::default();
    st.new_text_content = "  hi ".to_string();
    assert!(st.add_entry());
    st.new_text_type = "do".to_string();
    st.new_text_content = "there".to_string();
    assert!(st.add_entry());
    st.new_text_content = "   ".to_string();
    assert!(!st.add_entry());
    assert_eq!(st.start_batch(), vec!["/me hi".to_string(), "/do there".to_string()]);
    assert!(st.sending && st.progress_total == 2 && st.progress_status == "sending");
    assert_eq!(command_line("b", "x"), "/b x");
    let mut ai = AiState::default();
    assert!(ai.start_generation().is_none());
    ai.scenario = "s".to_string();
    ai.style = "  ".to_string();
    let (sc, _, style) = ai.start_generation().unwrap();
    assert_eq!(sc, "s");
    assert!(style.is_none() && ai.generating);
    assert!(ai.start_generation().is_none());
    assert_eq!(progress_label("sending", 2, 5), "发送中 2/5");
    assert_eq!(progress_label("complete", 5, 5), "完成 5/5");
    assert_eq!(progress_label("cancelled", 1, 5), "已取消 (1/5)");
    assert_eq!(progress_label("error", 1, 5), "错误 (1/5)");
    assert_eq!(progress_label("x", 1, 5), "x 1/5");
}

#[test]
fn public_config_results() {
    assert_eq!(default_source_url("o/r"), "https://raw.githubusercontent.com/o/r/main/public-config.yaml");
    assert_eq!(source_url(&default_config(), "o/r"), "https://raw.githubusercontent.com/o/r/main/public-config.yaml");
    let cfg = map(vec![("public_config", map(vec![("source_url", s("https://x/y"))]))]);
    assert_eq!(source_url(&cfg, "o/r"), "https://x/y");
    let plain: PublicConfigResult = payload_result(None, "hello", "u", "t".to_string());
    assert!(plain.success && plain.visible);
    assert_eq!((plain.message.as_str(), plain.content.as_deref()), ("text/plain", Some("hello")));
    let fields = PayloadFields { visible: false, title: Some("T".to_string()), content: None, link_url: None, link_text: None };
    let ok = payload_result(Some(fields), "raw", "u", "t".to_string());
    assert_eq!(ok.message, "ok");
    assert!(!ok.visible && ok.fetched_at.is_some());
    let raw = "visible: true\ntitle: Notice\ncontent: [1, 2]\nlink_url: 5\nlink_text: more\n";
    let y = parse_remote_payload(raw, "u");
    assert_eq!(y.message, "ok");
    assert!(y.success && y.visible && y.fetched_at.is_some());
    assert_eq!(y.title.as_deref(), Some("Notice"));
    assert_eq!(y.content.as_deref(), Some("[1,2]"));
    assert_eq!(y.link_url, None);
    assert_eq!(y.link_text.as_deref(), Some("more"));
    let j = parse_remote_payload("{\"content\": \"hi\", \"visible\": \"yes\"}", "u");
    assert_eq!((j.message.as_str(), j.content.as_deref(), j.visible), ("ok", Some("hi"), false));
    let scalar = parse_remote_payload("just words", "u");
    assert_eq!((scalar.message.as_str(), scalar.content, scalar.visible), ("ok", None, false));
    let bad = parse_remote_payload("a: [1\n", "u");
    assert_eq!((bad.message.as_str(), bad.content.as_deref(), bad.visible), ("text/plain", Some("a: [1\n"), true));
    let nested = parse_remote_payload("content:\n  a: 1\n  b: x\n", "u");
    assert_eq!(nested.content.as_deref(), Some("{\"a\":1,\"b\":\"x\"}"));
    let f = failure("u", failure_message(Some("404 Not Found"), ""));
    assert!(!f.success);
    assert_eq!(f.message, "HTTP 404 Not Found");
    assert_eq!(failure_message(None, "dns"), "请求失败: dns");
}

#[test]
fn endpoint_and_lan() {
    let e = resolve_endpoint(&default_config(), 0, false);
    assert_eq!((e.host.as_str(), e.port, e.lan_access), ("127.0.0.1", 8730, false));
    let e = resolve_endpoint(&default_config(), 9000, true);
    assert_eq!((e.host.as_str(), e.port, e.lan_access), ("0.0.0.0", 9000, true));
    let cfg = map(vec![("server", map(vec![("host", s("")), ("port", YamlNode::PosInt(65537))]))]);
    let e = resolve_endpoint(&cfg, 0, false);
    assert_eq!((e.host.as_str(), e.port), ("127.0.0.1", 1));
    assert_eq!(lan_addresses(vec!["10.0.0.2".to_string()], Some("1.1.1.1".to_string())), vec!["10.0.0.2".to_string()]);
    assert_eq!(lan_addresses(vec![], Some("127.0.0.1".to_string())), Vec::<String>::new());
    assert_eq!(lan_addresses(vec![], Some("192.168.0.9".to_string())), vec!["192.168.0.9".to_string()]);
}

#[test]
fn error_status_and_text() {
    let cases = vec![
        (AppError::Unauthorized("x".to_string()), 401, "未授权: x"),
        (AppError::BadRequest("x".to_string()), 400, "请求无效: x"),
        (AppError::NotFound("x".to_string()), 404, "未找到: x"),
        (AppError::Conflict("x".to_string()), 409, "冲突: x"),
        (AppError::Internal("x".to_string()), 500, "内部错误: x"),
        (AppError::Io("io".to_string()), 500, "io"),
        (AppError::SerdeJson("j".to_string()), 500, "j"),
        (AppError::SerdeYaml("y".to_string()), 500, "y"),
        (AppError::Reqwest("r".to_string()), 500, "r"),
        (AppError::Other("o".to_string()), 500, "o"),
    ];
    for (e, code, text) in cases {
        assert_eq!(e.status_code(), code);
        assert_eq!(e.to_message(), text);
    }
}
