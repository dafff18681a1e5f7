use vancesender::ai_client::{
    api_error, bearer, build_generate_user_prompt, build_rewrite_prompt, chat_url, estimate_max_tokens, fallback_lines,
    finish_generation, get_custom_headers, get_system_prompt, json_payload_exec, parse_generate_output,
    postprocess_texts, prepare_generate, prepare_rewrite, prepare_test, resolve_provider, sanitize_ascii,
};
use vancesender::ai_stream::SseDecoder;
use vancesender::config::ProviderConfig;
use vancesender::config_defaults::default_config;
use vancesender::error::AppError;
use vancesender::presets::TextLine;
use vancesender::yaml::YamlNode;

fn p(id: &str, key: &str) -> ProviderConfig {
    ProviderConfig {
        id: id.to_string(),
        name: format!("name-{id}"),
        api_base: "https://api.ｅxample.com/v1//".to_string(),
        api_key: key.to_string(),
        model: format!("model-{id}"),
    }
}

fn tl(t: &str, c: &str) -> TextLine {
    TextLine { text_type: t.to_string(), content: c.to_string() }
}

fn view(v: &[TextLine]) -> Vec<(String, String)> {
    v.iter().map(|l| (l.text_type.clone(), l.content.clone())).collect()
}

#[test]
fn system_prompt_default_or_custom() {
    assert!(get_system_prompt("").starts_with("你是 FiveM 角色扮演文本生成助手"));
    assert_eq!(get_system_prompt("自定义"), "自定义");
}

#[test]
fn generate_prompt_text() {
    let p = build_generate_user_prompt("开门", Some(5), "me_only", Some("幽默"));
    assert_eq!(
        p,
        "场景描述：开门\n请生成5条文本。\n只使用/me命令（type全部为me）。\n风格要求：幽默\n输出JSON数组，格式：[{\"type\":\"me\",\"content\":\"...\"}, ...]"
    );
    let q = build_generate_user_prompt("x", None, "mixed", Some(""));
    assert_eq!(q, "场景描述：x\n输出JSON数组，格式：[{\"type\":\"me\",\"content\":\"...\"}, ...]");
}

#[test]
fn rewrite_prompt_text() {
    let p = build_rewrite_prompt("[]", Some("短一点"), None, Some(""), Some("do_only"));
    assert_eq!(p, "请重写以下文本：\n[]\n重写要求：短一点\n重写后只使用/do命令。\n输出JSON数组，格式同原文。");
}

#[test]
fn token_budget_by_count() {
    assert_eq!(estimate_max_tokens(None), 1200);
    assert_eq!(estimate_max_tokens(Some(8)), 1200);
    assert_eq!(estimate_max_tokens(Some(9)), 2000);
    assert_eq!(estimate_max_tokens(Some(16)), 3000);
}

#[test]
fn sanitize_full_width() {
    assert_eq!(sanitize_ascii("ＡＢＣ１２３　ｘ"), "ABC123 x");
    assert_eq!(chat_url("https://api.ｅxample.com/v1//"), "https://api.example.com/v1/chat/completions");
    assert_eq!(bearer("ｓｋ-1"), "Bearer sk-1");
}

#[test]
fn provider_choice() {
    match resolve_provider(vec![], None, "") {
        Err(AppError::BadRequest(m)) => assert_eq!(m, "未配置任何AI服务商"),
        _ => panic!("expected BadRequest"),
    }
    match resolve_provider(vec![p("a", "")], Some("zz"), "") {
        Err(AppError::NotFound(m)) => assert_eq!(m, "AI服务商 'zz' 不存在"),
        _ => panic!("expected NotFound"),
    }
    assert_eq!(resolve_provider(vec![p("a", ""), p("b", "")], None, "b").unwrap().id, "b");
    assert_eq!(resolve_provider(vec![p("a", ""), p("b", "")], None, "zz").unwrap().id, "a");
    assert_eq!(resolve_provider(vec![p("a", ""), p("b", "")], Some("b"), "a").unwrap().id, "b");
}

#[test]
fn custom_headers_from_config() {
    let s = |x: &str| YamlNode::Str(x.to_string());
    let headers = YamlNode::Mapping(vec![(s("X-A"), s("  1 ")), (s("X-B"), s("   ")), (s("X-C"), YamlNode::PosInt(3))]);
    let cfg = YamlNode::Mapping(vec![(s("ai"), YamlNode::Mapping(vec![(s("custom_headers"), headers)]))]);
    assert_eq!(get_custom_headers(&cfg), vec![("X-A".to_string(), "1".to_string())]);
    assert!(get_custom_headers(&default_config()).is_empty());
}

#[test]
fn requests_are_prepared() {
    let q = prepare_generate(vec![p("a", "ｋ")], None, "", "", &default_config(), "s", Some(20), "mixed", None).unwrap();
    assert_eq!(q.provider_id, "a");
    assert_eq!(q.url, "https://api.example.com/v1/chat/completions");
    assert_eq!(q.authorization.as_deref(), Some("Bearer k"));
    assert_eq!(q.max_tokens, 3000);
    assert_eq!(q.model, "model-a");
    assert_eq!(q.messages[0].0, "system");
    assert_eq!(q.messages[1], ("user".to_string(), build_generate_user_prompt("s", Some(20), "mixed", None)));
    let r = prepare_rewrite(vec![p("a", "")], None, "", "sys", "[]", None, None, None, None).unwrap();
    assert!(r.authorization.is_none());
    assert_eq!(r.max_tokens, 2000);
    assert_eq!(r.messages[0], ("system".to_string(), "sys".to_string()));
    let t = prepare_test(vec![p("a", "")], "a", "").unwrap();
    assert_eq!(t.messages, vec![("user".to_string(), "reply with OK".to_string())]);
    assert_eq!(t.max_tokens, 10);
    assert!(matches!(prepare_test(vec![], "a", ""), Err(AppError::BadRequest(_))));
}

#[test]
fn json_payload_from_code_block() {
    assert_eq!(json_payload_exec("  ```json\n[1,\n2]\n```\nrest"), "[1,\n2]");
    assert_eq!(json_payload_exec(" [1] "), "[1]");
}

#[test]
fn fallback_parsing_of_lines() {
    let ls = fallback_lines("/me 推门\n\n/do 门开了\n/b ooc\n/e 笑\n随便");
    assert_eq!(
        view(&ls),
        vec![
            ("me".into(), "推门".into()),
            ("do".into(), "门开了".into()),
            ("b".into(), "ooc".into()),
            ("e".into(), "笑".into()),
            ("me".into(), "随便".into())
        ]
    );
}

#[test]
fn postprocess_cleans_lines() {
    let out = postprocess_texts(vec![tl("xx", " /me 走 "), tl("do", "  "), tl("do", "/do 响")]);
    assert_eq!(view(&out), vec![("me".into(), "走".into()), ("do".into(), "响".into())]);
}

#[test]
fn generate_output_json_or_lines() {
    let from_json = parse_generate_output("ignored", Some(vec![tl("e", " 挥手 ")]));
    assert_eq!(view(&from_json), vec![("e".into(), "挥手".into())]);
    let from_lines = parse_generate_output("/do 下雨", None);
    assert_eq!(view(&from_lines), vec![("do".into(), "下雨".into())]);
}

#[test]
fn generation_outcome() {
    match finish_generation("   ", None, "p".to_string()) {
        Err(AppError::Internal(m)) => assert_eq!(m, "AI未生成有效文本"),
        _ => panic!("expected Internal"),
    }
    let (ls, id) = finish_generation("/me a", None, "p".to_string()).unwrap();
    assert_eq!(ls.len(), 1);
    assert_eq!(id, "p");
    match api_error("404 Not Found", "nope") {
        AppError::Internal(m) => assert_eq!(m, "AI API 错误 (404 Not Found): nope"),
        _ => panic!("expected Internal"),
    }
}

#[test]
fn sse_stream_decoding() {
    let mut d = SseDecoder::new();
    let a = d.feed("data: {\"choices\":[{\"delta\":{\"content\":\"你\"}}]}\n\n: keep-alive\ndata: {\"choi");
    assert_eq!(a, vec!["你".to_string()]);
    let b = d.feed("ces\":[{\"delta\":{\"content\":\"好\"}}]}\ndata: not json\ndata: {\"choices\":[{\"delta\":{}}]}\n");
    assert_eq!(b, vec!["好".to_string()]);
    let c = d.feed("data: [DONE]\ndata: {\"choices\":[{\"delta\":{\"content\":\"后\"}}]}\n");
    assert!(c.is_empty());
    assert!(d.buffer.starts_with("data: {"));
    let e = d.feed("");
    assert_eq!(e, vec!["后".to_string()]);
}

#[test]
fn sse_chunking_does_not_matter() {
    let text = "data: {\"choices\":[{\"delta\":{\"content\":\"a\"}}]}\ndata: {\"choices\":[{\"delta\":{\"content\":\"b\"}}]}\n";
    let mut whole = SseDecoder::new();
    let all = whole.feed(text);
    let mut parts = SseDecoder::new();
    let mut got = Vec::new();
    for piece in [&text[..10], &text[10..57], &text[57..]] {
        got.extend(parts.feed(piece));
    }
    assert_eq!(all, got);
    assert_eq!(whole.buffer, parts.buffer);
}
