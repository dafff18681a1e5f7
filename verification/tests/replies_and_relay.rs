use vancesender::ai_client::{probe_reply, reply_content, ProbeOutcome};
use vancesender::ai_stream::{SseDecoder, StreamEvent, StreamRelay};
use vancesender::api::presets::{import_item_of, import_items, ImportTally};
use vancesender::config::{config_file_text, config_from_text, import_config_text};
use vancesender::config_defaults::default_config;
use vancesender::error::AppError;
use vancesender::public_config::{cache_fresh, cache_ttl_ms};
use vancesender::stats::{Stats, StatsTracker};
use vancesender::yaml::{deep_merge, get_i64, get_str, node_eq, YamlNode};

fn s(x: &str) -> YamlNode {
    YamlNode::Str(x.to_string())
}

fn map(entries: Vec<(&str, YamlNode)>) -> YamlNode {
    YamlNode::Mapping(entries.into_iter().map(|(k, v)| (s(k), v)).collect())
}

#[test]
fn whole_reply_content() {
    let body = r#"{"choices":[{"message":{"content":"/me waves"}}]}"#;
    assert_eq!(reply_content(body).unwrap(), "/me waves");
    assert_eq!(reply_content(r#"{"choices":[]}"#).unwrap(), "");
    match reply_content("not json") {
        Err(AppError::Internal(m)) => assert!(m.starts_with("AI响应解析失败: ")),
        other => panic!("{other:?}"),
    }
}

#[test]
fn provider_probe_reports() {
    let ok = probe_reply(ProbeOutcome::Answered, 12, "gpt");
    assert!(ok.success);
    assert_eq!((ok.latency_ms, ok.model.as_deref(), ok.error), (12, Some("gpt"), None));
    let refused = probe_reply(ProbeOutcome::Refused { status: 401, body: "bad key".to_string() }, 5, "gpt");
    assert!(!refused.success && refused.model.is_none());
    assert_eq!(refused.error.as_deref(), Some("HTTP 401: bad key"));
    let down = probe_reply(ProbeOutcome::Unreachable("timeout".to_string()), 7, "gpt");
    assert_eq!((down.success, down.error.as_deref()), (false, Some("timeout")));
}

#[test]
fn streamed_generation_relay() {
    let mut relay = StreamRelay::new();
    assert!(matches!(relay.on_item(Ok("/me a\n".to_string())), StreamEvent::Chunk(ref c) if c == "/me a\n"));
    assert!(matches!(relay.on_item(Ok("/do b".to_string())), StreamEvent::Chunk(_)));
    assert!(!relay.stopped);
    assert_eq!(relay.full, "/me a\n/do b");
    let (texts, keep) = relay.finish(None);
    assert!(keep);
    assert_eq!(texts.len(), 2);
    assert_eq!((texts[0].text_type.as_str(), texts[0].content.as_str()), ("me", "a"));
    let mut broken = StreamRelay::new();
    assert!(matches!(broken.on_item(Err("boom".to_string())), StreamEvent::Error(ref e) if e == "boom"));
    assert!(broken.stopped);
    let (texts, keep) = broken.finish(None);
    assert!(texts.is_empty() && !keep);
}

#[test]
fn import_counts() {
    let mut t = ImportTally::new();
    t.count(true, true);
    t.count(true, false);
    t.count(false, false);
    assert_eq!((t.imported, t.skipped), (1, 2));
}

#[test]
fn announcement_cache() {
    let cfg = |v: YamlNode| map(vec![("public_config", map(vec![("cache_ttl_seconds", v)]))]);
    assert_eq!(cache_ttl_ms(&cfg(YamlNode::PosInt(30))), Some(30_000));
    assert_eq!(cache_ttl_ms(&map(vec![])), Some(120_000));
    assert_eq!(cache_ttl_ms(&cfg(s("x"))), Some(120_000));
    assert_eq!(cache_ttl_ms(&cfg(YamlNode::Float("1.5".to_string()))), None);
    assert!(cache_fresh(false, Some(10), 20));
    assert!(!cache_fresh(false, Some(20), 20));
    assert!(!cache_fresh(true, Some(1), 20));
    assert!(!cache_fresh(false, None, 20));
}

#[test]
fn deep_merge_again_changes_nothing() {
    let mut base = map(vec![("a", YamlNode::PosInt(1)), ("b", map(vec![("c", s("x"))]))]);
    let patch = map(vec![("b", map(vec![("d", s("y"))])), ("e", YamlNode::Bool(true))]);
    deep_merge(&mut base, &patch);
    let once = base.copy();
    deep_merge(&mut base, &patch);
    assert!(node_eq(&base, &once));
    let mut scalar = s("old");
    deep_merge(&mut scalar, &patch);
    assert!(node_eq(&scalar, &patch));
}

#[test]
fn totals_stay_consistent() {
    let mut t = StatsTracker::new(Stats::zero());
    t.record_send(true, None);
    t.record_send(false, Some("p"));
    t.record_batch();
    assert_eq!(t.stats.total_sent, t.stats.total_success + t.stats.total_failed);
    assert_eq!((t.stats.total_success, t.stats.total_failed, t.stats.total_batches), (1, 1, 1));
}

#[test]
fn overlay_batch_status() {
    let mut st = vancesender::gui::QuickOverlayState::default();
    st.on_batch_progress(0, 3);
    assert_eq!(st.status_message.as_deref(), Some("发送中 1/3"));
    st.on_batch_done();
    assert_eq!(st.status_message.as_deref(), Some("✅ 发送完成"));
}

#[test]
fn config_file_reading() {
    let d = config_from_text(None);
    assert!(node_eq(&d, &default_config()));
    let bad = config_from_text(Some("server: [1"));
    assert!(node_eq(&bad, &default_config()));
    let c = config_from_text(Some("server:\n  port: 9100\n"));
    assert_eq!(get_i64(&c, "server", "port", 0), 9100);
    assert_eq!(get_str(&c, "server", "host"), "127.0.0.1");
    let mut cfg = default_config();
    assert!(import_config_text(&mut cfg, "sender:\n  method: typing\n").is_ok());
    assert_eq!(get_str(&cfg, "sender", "method"), "typing");
    match import_config_text(&mut cfg, "a: [") {
        Err(AppError::Internal(m)) => assert!(m.starts_with("解析配置文件失败: ")),
        other => panic!("{other:?}"),
    }
    assert_eq!(get_str(&cfg, "sender", "method"), "typing");
    let text = config_file_text(&c).unwrap();
    let back = config_from_text(Some(&text));
    assert_eq!(get_i64(&back, "server", "port", 0), 9100);
}

#[test]
fn import_body_reading() {
    assert!(matches!(import_items(s("x")), Err(AppError::BadRequest(ref m)) if m == "无效的导入数据格式"));
    let one = map(vec![("name", s("A"))]);
    assert_eq!(import_items(one).unwrap().len(), 1);
    let item = map(vec![
        ("name", s("A")),
        ("texts", YamlNode::List(vec![map(vec![("content", s("hi"))]), YamlNode::List(vec![s("do"), s("x")])])),
        ("tags", YamlNode::List(vec![s("t1"), YamlNode::PosInt(3), s("t2")])),
        ("sort_order", YamlNode::NegInt(-2)),
    ]);
    let list = import_items(YamlNode::List(vec![item.copy(), s("other")])).unwrap();
    assert_eq!(list.len(), 2);
    let it = import_item_of(&item);
    assert_eq!(it.name.as_deref(), Some("A"));
    assert_eq!(it.id, None);
    assert_eq!(it.texts.len(), 2);
    assert_eq!((it.texts[0].text_type.as_str(), it.texts[0].content.as_str()), ("me", "hi"));
    assert_eq!((it.texts[1].text_type.as_str(), it.texts[1].content.as_str()), ("do", "x"));
    assert_eq!(it.tags, vec!["t1".to_string(), "t2".to_string()]);
    assert_eq!(it.sort_order, Some(-2));
    let broken = map(vec![("texts", YamlNode::List(vec![map(vec![("content", s("a"))]), YamlNode::Null]))]);
    assert!(import_item_of(&broken).texts.is_empty());
}

#[test]
fn stream_data_lines_read_delta() {
    let mut d = SseDecoder::new();
    let pieces = d.feed("data: {\"choices\":[{\"delta\":{\"content\":\"Hi\"}}]}\ndata: {\"choices\":[]}\ndata: [DONE]\n");
    assert_eq!(pieces, vec!["Hi".to_string()]);
}
