use vancesender::config_defaults::default_config;
use vancesender::quick_overlay::{
    has_trigger, modifier_vk, parse_hotkey, parse_key_token, parse_mouse_side_button, poll_interval, rising_edge,
    special_key_vk, HotkeyPoller,
};
use vancesender::sender::{
    chat_open_vk, is_fivem_window, single_opening, single_paste, BatchPhase, BatchRun, SendNext, SendOp, SenderConfig,
    FOCUS_STABLE_MS, VK_RETURN,
};
use vancesender::status_overlay::{window_position, OverlayState, WindowAction, AUTO_HIDE_MS};

fn cfg(method: &str, retries: u32) -> SenderConfig {
    let mut c = SenderConfig::defaults();
    c.method = method.to_string();
    c.retry_count = retries;
    c
}

fn reports(ops: &[SendOp]) -> Vec<(String, usize)> {
    ops.iter()
        .filter_map(|o| match o {
            SendOp::Report(p) => Some((p.status.clone(), p.index)),
            _ => None,
        })
        .collect()
}

fn finished(n: &SendNext) -> Option<Result<(), String>> {
    match n {
        SendNext::Finish(r) => Some(r.clone()),
        _ => None,
    }
}

#[test]
fn sender_settings_from_config() {
    let c = SenderConfig::from_yaml(&default_config());
    let d = SenderConfig::defaults();
    assert_eq!(c.method, d.method);
    assert_eq!(c.chat_open_key, d.chat_open_key);
    assert_eq!(c.delay_open_chat, d.delay_open_chat);
    assert_eq!(c.delay_between_lines, d.delay_between_lines);
    assert_eq!(c.retry_count, d.retry_count);
    assert_eq!(c.typing_char_delay, d.typing_char_delay);
    assert!(!c.types_text());
    assert!(cfg("typing", 3).types_text());
}

#[test]
fn chat_keys_and_game_window() {
    assert_eq!(chat_open_vk(" y "), 'Y' as u16);
    assert_eq!(chat_open_vk("7"), '7' as u16);
    assert_eq!(chat_open_vk("enter"), 0x0D);
    assert_eq!(chat_open_vk("Space"), 0x20);
    assert_eq!(chat_open_vk("tab"), 0x09);
    assert_eq!(chat_open_vk("F5"), 0x54);
    assert!(is_fivem_window("FiveM® by Cfx.re - Server"));
    assert!(is_fivem_window("Grand Theft Auto V (GTA)"));
    assert!(!is_fivem_window("Notepad"));
}

#[test]
fn batch_by_clipboard() {
    let texts = vec!["/me a".to_string(), "/do b".to_string()];
    let (mut run, next) = BatchRun::start(false, texts, cfg("clipboard", 3), Some(5));
    assert!(matches!(next, SendNext::AskFocus { stable_ms: FOCUS_STABLE_MS, .. }));
    assert_eq!(run.between, 5);
    let (ops, next) = run.answer(true);
    assert!(ops.is_empty());
    assert!(matches!(next, SendNext::AskCancelled));
    let (ops, next) = run.answer(false);
    assert_eq!(reports(&ops), vec![("sending".to_string(), 0)]);
    assert!(matches!(next, SendNext::AskClipboard(ref t) if t == "/me a"));
    let (ops, next) = run.answer(true);
    assert!(matches!(ops[0], SendOp::Paste));
    assert!(matches!(ops[2], SendOp::PressKey(VK_RETURN)));
    assert_eq!(reports(&ops), vec![("sent".to_string(), 0)]);
    assert!(matches!(ops.last(), Some(SendOp::Sleep(5))));
    assert!(matches!(next, SendNext::AskCancelled));
    let (_, next) = run.answer(false);
    assert!(matches!(next, SendNext::AskClipboard(_)));
    let (ops, next) = run.answer(true);
    assert_eq!(reports(&ops), vec![("sent".to_string(), 1), ("complete".to_string(), 2)]);
    assert_eq!(finished(&next), Some(Ok(())));
    assert!(matches!(run.phase, BatchPhase::Finished));
}

#[test]
fn batch_clipboard_failures_exhaust_retries() {
    let (mut run, _) = BatchRun::start(false, vec!["x".to_string()], cfg("clipboard", 2), None);
    assert_eq!(run.between, 1800);
    run.answer(true);
    run.answer(false);
    // first try and two retries ask for the clipboard; the third failure ends it
    for _ in 0..2 {
        let (ops, next) = run.answer(false);
        assert!(matches!(ops[0], SendOp::Sleep(450)));
        assert!(matches!(next, SendNext::AskClipboard(_)));
    }
    let (ops, next) = run.answer(false);
    assert!(matches!(ops[0], SendOp::Sleep(450)));
    assert_eq!(reports(&ops), vec![("error".to_string(), 0)]);
    assert_eq!(finished(&next), Some(Err("剪贴板写入失败".to_string())));
}

#[test]
fn batch_typing_cancel_and_focus() {
    let (mut run, _) = BatchRun::start(false, vec!["a".to_string(), "b".to_string()], cfg("typing", 3), None);
    run.answer(true);
    let (ops, next) = run.answer(false);
    assert!(ops.iter().any(|o| matches!(o, SendOp::TypeText(t) if t == "a")));
    assert_eq!(reports(&ops), vec![("sending".to_string(), 0), ("sent".to_string(), 0)]);
    assert!(matches!(next, SendNext::AskCancelled));
    let (ops, next) = run.answer(true);
    assert_eq!(reports(&ops), vec![("cancelled".to_string(), 1)]);
    assert_eq!(finished(&next), Some(Ok(())));
    let (mut r2, _) = BatchRun::start(false, vec!["a".to_string()], cfg("typing", 3), None);
    let (_, next) = r2.answer(false);
    assert_eq!(finished(&next), Some(Err("等待FiveM窗口超时".to_string())));
    let (_, busy) = BatchRun::start(true, vec![], cfg("typing", 3), None);
    assert_eq!(finished(&busy), Some(Err("已有发送任务正在执行".to_string())));
    let (mut empty, _) = BatchRun::start(false, vec![], cfg("typing", 3), None);
    let (ops, next) = empty.answer(true);
    assert_eq!(reports(&ops), vec![("complete".to_string(), 0)]);
    assert_eq!(finished(&next), Some(Ok(())));
}

#[test]
fn batch_without_retries_still_tries_once() {
    let (mut run, _) = BatchRun::start(false, vec!["/me hi".to_string()], cfg("clipboard", 0), None);
    run.answer(true);
    let (ops, next) = run.answer(false);
    assert_eq!(reports(&ops), vec![("sending".to_string(), 0)]);
    assert!(matches!(next, SendNext::AskClipboard(ref t) if t == "/me hi"));
    let (ops, next) = run.answer(true);
    assert!(matches!(ops[0], SendOp::Paste));
    assert!(matches!(ops[2], SendOp::PressKey(VK_RETURN)));
    assert_eq!(reports(&ops), vec![("sent".to_string(), 0), ("complete".to_string(), 1)]);
    assert_eq!(finished(&next), Some(Ok(())));
    let (mut run, _) = BatchRun::start(false, vec!["/me hi".to_string()], cfg("clipboard", 0), None);
    run.answer(true);
    run.answer(false);
    let (ops, next) = run.answer(false);
    assert_eq!(reports(&ops), vec![("error".to_string(), 0)]);
    assert_eq!(finished(&next), Some(Err("剪贴板写入失败".to_string())));
}

#[test]
fn single_line_sending() {
    let (ops, clip) = single_opening(false, &cfg("clipboard", 3), "/me hi").unwrap();
    assert_eq!(ops.len(), 3);
    assert_eq!(clip.as_deref(), Some("/me hi"));
    let (ops, clip) = single_opening(false, &cfg("typing", 3), "/me hi").unwrap();
    assert_eq!(ops.len(), 6);
    assert!(clip.is_none());
    assert_eq!(single_opening(true, &cfg("typing", 3), "x").unwrap_err(), "已有发送任务正在执行");
    assert_eq!(single_paste(&cfg("clipboard", 3), true).unwrap().len(), 3);
    assert_eq!(single_paste(&cfg("clipboard", 3), false).unwrap_err(), "剪贴板写入失败");
}

#[test]
fn hotkeys_parse() {
    assert_eq!(parse_hotkey("ctrl+shift+f7"), Some((vec![0x11, 0x10], 0x76)));
    assert_eq!(parse_hotkey(" Alt + Q "), Some((vec![0x12], 'Q' as i32)));
    assert_eq!(parse_hotkey("ctrl+"), None);
    assert_eq!(parse_key_token("F12"), Some(0x7B));
    assert_eq!(special_key_vk("space"), Some(0x20));
    assert_eq!(modifier_vk("win"), Some(0x5B));
    assert_eq!(parse_key_token("9"), Some('9' as i32));
    assert_eq!(parse_mouse_side_button("Mouse5"), Some(0x06));
    assert_eq!(parse_mouse_side_button(""), None);
    assert!(has_trigger("", "x1"));
    assert!(!has_trigger("", ""));
    assert_eq!(poll_interval(5), 20);
    assert_eq!(poll_interval(40), 40);
    assert!(rising_edge(false, true));
    assert!(!rising_edge(true, true));
}

#[test]
fn poller_fires_on_rising_edges_only() {
    assert!(HotkeyPoller::new("", "").is_none());
    let mut p = HotkeyPoller::new("ctrl+f7", "back").unwrap();
    assert_eq!(p.hotkey_keys(), vec![0x11, 0x76]);
    assert_eq!(p.tick(&vec![true, false], false), 0);
    assert_eq!(p.tick(&vec![true, true], true), 2);
    assert_eq!(p.tick(&vec![true, true], true), 0);
    assert_eq!(p.tick(&vec![false, true], false), 0);
    assert_eq!(p.tick(&vec![true, true], false), 1);
}

#[test]
fn status_bar_shows_and_hides() {
    assert_eq!(window_position(1920), (1920 - 320 - 16, 16));
    let mut s = OverlayState::new(0);
    assert!(s.update("发送中".to_string(), 100) == WindowAction::Show);
    assert!(s.update("发送中 2".to_string(), 200) == WindowAction::Keep);
    assert!(s.tick(200 + AUTO_HIDE_MS) == WindowAction::Keep);
    assert!(s.tick(201 + AUTO_HIDE_MS) == WindowAction::Hide);
    assert!(!s.visible && s.text.is_empty());
    assert!(s.tick(u64::MAX) == WindowAction::Keep);
}
