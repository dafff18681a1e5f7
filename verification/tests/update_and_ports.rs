use vancesender::error::AppError;
use vancesender::port_guard::{
    find_listener, on_answer, on_kill, on_occupier, on_wait, process_name_from_tasklist, taskkill_outcome, PortAction,
    PortOccupier,
};
use vancesender::update_checker::{
    check_start, compare_versions, is_rate_limited, normalize_version, on_release_response, on_tags_response, read_cache,
    tags_url, update_rate_limit, ApiResponse, CheckStart, ReleaseInfo, UpdateCheckState, CACHE_TTL_MS,
};

const REPO: &str = "vancehuds/VanceSender";

fn status(code: u16, found: Option<ReleaseInfo>) -> ApiResponse {
    ApiResponse::Status { code, retry_after: None, etag: Some("\"e1\"".to_string()), last_modified: None, found }
}

fn release(tag: &str) -> ReleaseInfo {
    ReleaseInfo {
        tag_name: Some(tag.to_string()),
        html_url: Some("https://github.com/x/y/releases/tag/v2.0.0".to_string()),
        published_at: Some("2024-05-01T00:00:00Z".to_string()),
    }
}

fn occ(name: Option<&str>) -> PortOccupier {
    PortOccupier { pid: 4321, process_name: name.map(|s| s.to_string()), local_address: Some("0.0.0.0:8730".to_string()) }
}

fn internal(e: AppError) -> String {
    match e {
        AppError::Internal(m) => m,
        _ => panic!("expected Internal"),
    }
}

#[test]
fn versions_normalize_and_compare() {
    assert_eq!(normalize_version("  v1.2.3 "), "1.2.3");
    assert_eq!(normalize_version("Vv1"), "v1");
    assert!(compare_versions("1.2.3", "1.10.0"));
    assert!(!compare_versions("1.10.0", "1.2.3"));
    assert!(!compare_versions("1.2.3", "1.2.3"));
    assert!(compare_versions("1.2", "1.2.0"));
    assert!(compare_versions("1.2.3-beta", "1.2.4"));
}

#[test]
fn check_starts_with_a_fetch() {
    let st = UpdateCheckState::new();
    match check_start(&st, 0, "1.0.0", REPO, false) {
        CheckStart::Fetch { url, owner, repo, etag, cached, .. } => {
            assert_eq!(url, "https://api.github.com/repos/vancehuds/VanceSender/releases/latest");
            assert_eq!(owner, "vancehuds");
            assert_eq!(repo, "VanceSender");
            assert!(etag.is_none() && cached.is_none());
        }
        _ => panic!("expected a fetch"),
    }
    match check_start(&st, 0, "1.0.0", "bad", true) {
        CheckStart::Done(r) => {
            assert!(!r.success);
            assert_eq!(r.message, "无效的仓库格式");
            assert_eq!(r.error_type.as_deref(), Some("config"));
        }
        _ => panic!("expected an answer"),
    }
    assert_eq!(tags_url("o", "r"), "https://api.github.com/repos/o/r/tags?per_page=1");
}

#[test]
fn release_found_is_cached_and_reused() {
    let mut st = UpdateCheckState::new();
    let r = on_release_response(&mut st, 1000, "1.0.0", status(200, Some(release("v2.0.0"))), None).unwrap();
    assert!(r.success && r.update_available);
    assert_eq!(r.latest_version.as_deref(), Some("2.0.0"));
    assert_eq!(r.message, "发现新版本 v2.0.0");
    let (cached, fresh, etag, _) = read_cache(&st, 1000 + CACHE_TTL_MS - 1);
    assert!(fresh && cached.is_some());
    assert_eq!(etag.as_deref(), Some("\"e1\""));
    match check_start(&st, 1000 + CACHE_TTL_MS - 1, "1.0.0", REPO, false) {
        CheckStart::Done(c) => assert_eq!(c.message, "发现新版本 v2.0.0"),
        _ => panic!("expected the cached answer"),
    }
    match check_start(&st, 1000 + CACHE_TTL_MS, "1.0.0", REPO, false) {
        CheckStart::Fetch { etag, cached, .. } => {
            assert_eq!(etag.as_deref(), Some("\"e1\""));
            assert!(cached.is_some());
        }
        _ => panic!("expected a revalidation"),
    }
}

#[test]
fn up_to_date_release() {
    let mut st = UpdateCheckState::new();
    let r = on_release_response(&mut st, 0, "2.0.0", status(200, Some(release("v2.0.0"))), None).unwrap();
    assert!(!r.update_available);
    assert_eq!(r.message, "已是最新版本");
}

#[test]
fn not_modified_touches_cache() {
    let mut st = UpdateCheckState::new();
    let first = on_release_response(&mut st, 0, "1.0.0", status(200, Some(release("v1.5"))), None).unwrap();
    let again = on_release_response(&mut st, 5000, "1.0.0", status(304, None), Some(first)).unwrap();
    assert_eq!(again.latest_version.as_deref(), Some("1.5"));
    assert_eq!(st.cache.as_ref().unwrap().fetched_at, 5000);
    assert!(on_release_response(&mut UpdateCheckState::new(), 0, "1", status(304, None), None).is_none());
}

#[test]
fn rate_limits_back_off() {
    let mut st = UpdateCheckState::new();
    let resp = ApiResponse::Status { code: 429, retry_after: Some("30".to_string()), etag: None, last_modified: None, found: None };
    let r = on_release_response(&mut st, 1000, "1.0.0", resp, None).unwrap();
    assert_eq!(r.message, "GitHub API 限流: HTTP 429");
    assert_eq!(r.status_code, Some(429));
    assert_eq!(st.rate_limit_until, Some(31000));
    assert!(is_rate_limited(&st, 30999));
    assert!(!is_rate_limited(&st, 31000));
    match check_start(&st, 2000, "1.0.0", REPO, false) {
        CheckStart::Done(f) => {
            assert_eq!(f.message, "GitHub API 限流中，请稍后再试");
            assert_eq!(f.error_type.as_deref(), Some("rate_limit"));
        }
        _ => panic!("expected the rate-limit answer"),
    }
    let mut st2 = UpdateCheckState::new();
    update_rate_limit(&mut st2, Some("soon"), 403, 0);
    assert_eq!(st2.rate_limit_until, Some(60000));
    update_rate_limit(&mut st2, None, 500, 0);
    assert_eq!(st2.rate_limit_until, Some(60000));
}

#[test]
fn rate_limited_check_answers_from_cache() {
    let mut st = UpdateCheckState::new();
    on_release_response(&mut st, 0, "1.0.0", status(200, Some(release("v3"))), None);
    update_rate_limit(&mut st, None, 403, CACHE_TTL_MS * 2);
    match check_start(&st, CACHE_TTL_MS * 2 + 1, "1.0.0", REPO, false) {
        CheckStart::Done(c) => assert_eq!(c.latest_version.as_deref(), Some("3")),
        _ => panic!("expected the cached answer"),
    }
}

#[test]
fn errors_and_tags_fallback() {
    let mut st = UpdateCheckState::new();
    assert!(on_release_response(&mut st, 0, "1.0.0", status(404, None), None).is_none());
    let e = on_release_response(&mut st, 0, "1.0.0", status(500, None), None).unwrap();
    assert_eq!(e.message, "GitHub API 错误: HTTP 500");
    assert_eq!(e.error_type.as_deref(), Some("http"));
    let n = on_release_response(&mut st, 0, "1.0.0", ApiResponse::NetworkError("timeout".to_string()), None).unwrap();
    assert_eq!(n.message, "网络错误: timeout");
    let t = on_tags_response(&mut st, 0, "1.0.0", status(200, Some(release("v1.1.0"))));
    assert_eq!(t.message, "发现新版本 v1.1.0 (tag)");
    assert!(t.release_url.is_none());
    let none = on_tags_response(&mut st, 0, "1.0.0", status(200, None));
    assert_eq!(none.message, "未找到发布版本");
    let bad = on_tags_response(&mut st, 0, "1.0.0", status(502, None));
    assert_eq!(bad.message, "GitHub Tags API 错误: HTTP 502");
}

#[test]
fn netstat_listener_found() {
    let out = "\r\n活动连接\r\n\r\n  协议  本地地址          外部地址        状态           PID\r\n  TCP    127.0.0.1:18730    0.0.0.0:0    LISTENING       11\r\n  TCP    0.0.0.0:8730           0.0.0.0:0              LISTENING       4321\r\n";
    assert_eq!(find_listener(out, 8730), Some((4321, "0.0.0.0:8730".to_string())));
    assert_eq!(find_listener(out, 18730), Some((11, "127.0.0.1:18730".to_string())));
    assert_eq!(find_listener(out, 9999), None);
    assert_eq!(find_listener("  TCP 0.0.0.0:8730 0.0.0.0:0 LISTENING notapid\n", 8730), None);
}

#[test]
fn tasklist_names() {
    assert_eq!(process_name_from_tasklist("\"VanceSender.exe\",\"4321\",\"Console\"\r\n"), Some("VanceSender.exe".to_string()));
    assert_eq!(process_name_from_tasklist("INFO: No tasks are running which match the specified criteria.\r\n"), None);
    assert_eq!(process_name_from_tasklist("\"INFO:\",\"x\""), None);
    assert_eq!(process_name_from_tasklist(""), None);
}

#[test]
fn port_guard_decisions() {
    match on_occupier("127.0.0.1", 8730, None, true) {
        PortAction::Fail(e) => assert_eq!(internal(e), "端口 127.0.0.1:8730 已被占用（无法识别占用进程）"),
        _ => panic!("expected Fail"),
    }
    assert!(matches!(on_occupier("h", 8730, Some(&occ(Some("VanceSender.exe"))), false), PortAction::Kill(4321)));
    match on_occupier("h", 8730, Some(&occ(Some("nginx.exe"))), true) {
        PortAction::Ask(m) => assert_eq!(m, "VanceSender 需要的端口 8730 已被 nginx.exe (PID 4321) 占用。\n\n是否强制关闭该进程？"),
        _ => panic!("expected Ask"),
    }
    match on_occupier("h", 8730, Some(&occ(None)), false) {
        PortAction::Fail(e) => assert_eq!(internal(e), "端口 8730 被 未知进程 (PID 4321) 占用"),
        _ => panic!("expected Fail"),
    }
    match on_answer(8730, &occ(Some("a")), false) {
        PortAction::Fail(e) => assert_eq!(internal(e), "端口 8730 被占用，用户取消终止"),
        _ => panic!("expected Fail"),
    }
    assert!(matches!(on_answer(8730, &occ(Some("a")), true), PortAction::Kill(4321)));
}

#[test]
fn port_guard_kill_and_wait() {
    let fail = taskkill_outcome(false, Some(5));
    let msg = on_kill(8730, &occ(Some("vance_sender")), fail).unwrap();
    assert_eq!(internal(msg), "端口 8730 被另一个 VanceSender (PID 4321) 占用，且无法终止: 内部错误: taskkill 退出码: 5");
    let other = on_kill(8730, &occ(Some("x.exe")), taskkill_outcome(false, None)).unwrap();
    assert_eq!(internal(other), "无法终止占用端口的进程 x.exe (PID 4321): 内部错误: taskkill 退出码: -1");
    assert!(on_kill(8730, &occ(None), taskkill_outcome(true, None)).is_none());
    assert!(on_wait(8730, &occ(None), true).is_ok());
    assert_eq!(internal(on_wait(8730, &occ(Some("VanceSender")), false).unwrap_err()), "已终止旧实例 (PID 4321) 但端口 8730 仍未释放");
    assert_eq!(internal(on_wait(8730, &occ(Some("y")), false).unwrap_err()), "已终止进程但端口 8730 仍未释放");
}
