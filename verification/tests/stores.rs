use vancesender::ai_history::{
    clear_unstarred, delete_entry, list_history, save_generation, save_generation_with, toggle_star, AIHistoryEntry,
    AIHistoryStore, MAX_AI_HISTORY,
};
use vancesender::error::AppError;
use vancesender::history::{clear_history, get_history, get_total, record_send, record_send_at, HistoryStore, MAX_HISTORY};
use vancesender::notifications::NotificationQueue;
use vancesender::presets::{
    apply_update, create_preset, default_type, filter_and_sort, new_preset, preset_path, validate_preset_id, Preset,
    PresetPatch, TextLine,
};
use vancesender::stats::{Stats, StatsTracker, FLUSH_EVERY, MAX_DAYS};

fn line(t: &str, c: &str) -> TextLine {
    TextLine { text_type: t.to_string(), content: c.to_string() }
}

fn preset(id: &str, name: &str, order: i64, tags: &[&str]) -> Preset {
    Preset {
        id: id.to_string(),
        name: name.to_string(),
        texts: vec![],
        tags: tags.iter().map(|t| t.to_string()).collect(),
        sort_order: order,
        created_at: String::new(),
        updated_at: String::new(),
    }
}

fn entry(id: &str, starred: bool) -> AIHistoryEntry {
    AIHistoryEntry {
        id: id.to_string(),
        scenario: "s".to_string(),
        texts: vec![],
        provider_id: "p".to_string(),
        starred,
        created_at: "t".to_string(),
    }
}

#[test]
fn preset_ids_are_validated() {
    assert_eq!(validate_preset_id("  abc_D-9 ").unwrap(), "abc_D-9");
    match validate_preset_id("../x") {
        Err(AppError::BadRequest(m)) => assert_eq!(m, "预设 ID '../x' 包含非法字符"),
        _ => panic!("expected BadRequest"),
    }
    assert!(validate_preset_id("   ").is_err());
    assert!(validate_preset_id("中文").is_err());
    assert_eq!(preset_path("/d/presets", " p1 ").unwrap(), "/d/presets/p1.json");
}

#[test]
fn created_presets_have_valid_ids() {
    let p = create_preset(None, vec![line("me", "x")], vec!["a".to_string()]);
    assert_eq!(p.id.len(), 36);
    assert_eq!(validate_preset_id(&p.id).unwrap(), p.id);
    assert_eq!(p.name, "未命名");
    assert_eq!(p.sort_order, 0);
    assert_eq!(p.created_at, p.updated_at);
    assert!(!p.created_at.is_empty());
    assert_eq!(default_type(), "me");
}

#[test]
fn presets_sort_by_order_then_name_and_filter_by_tag() {
    let ps = vec![preset("1", "b", 1, &["x"]), preset("2", "a", 1, &[]), preset("3", "z", 0, &["x"])];
    let all = filter_and_sort(ps, None);
    let names: Vec<&str> = all.iter().map(|p| p.name.as_str()).collect();
    assert_eq!(names, vec!["z", "a", "b"]);
    let ps = vec![preset("1", "b", 1, &["x"]), preset("2", "a", 1, &[]), preset("3", "z", 0, &["x"])];
    let tagged = filter_and_sort(ps, Some("x"));
    let names: Vec<&str> = tagged.iter().map(|p| p.name.as_str()).collect();
    assert_eq!(names, vec!["z", "b"]);
}

#[test]
fn preset_update_sets_only_given_fields() {
    let mut p = new_preset("id1".to_string(), Some("n"), vec![], vec![], "t0".to_string());
    let patch = PresetPatch { name: None, texts: Some(vec![line("do", "y")]), tags: None, sort_order: Some(7) };
    apply_update(&mut p, patch, "t1".to_string());
    assert_eq!(p.name, "n");
    assert_eq!(p.texts.len(), 1);
    assert_eq!(p.sort_order, 7);
    assert_eq!(p.created_at, "t0");
    assert_eq!(p.updated_at, "t1");
}

#[test]
fn send_history_is_newest_first_and_bounded() {
    let mut store = HistoryStore::new();
    for i in 0..(MAX_HISTORY + 5) {
        record_send_at(&mut store, &format!("line {i}"), i % 2 == 0, "webui", format!("ts{i}"));
    }
    assert_eq!(get_total(&store), MAX_HISTORY);
    let page = get_history(&store, 2, 1);
    assert_eq!(page.len(), 2);
    assert_eq!(page[0].text, format!("line {}", MAX_HISTORY + 3));
    assert!(get_history(&store, 5, 500).is_empty());
    record_send(&mut store, "now", true, "api");
    assert_eq!(store.entries[0].text, "now");
    assert!(!store.entries[0].timestamp.is_empty());
    clear_history(&mut store);
    assert_eq!(get_total(&store), 0);
}

#[test]
fn ai_history_star_delete_clear() {
    let mut store = AIHistoryStore::new();
    save_generation_with(&mut store, entry("a", false));
    save_generation_with(&mut store, entry("b", false));
    assert_eq!(list_history(&store, 10, 0)[0].id, "b");
    assert!(toggle_star(&mut store, "a"));
    assert!(!toggle_star(&mut store, "missing"));
    assert!(delete_entry(&mut store, "b"));
    assert!(!delete_entry(&mut store, "b"));
    save_generation(&mut store, "scene", &vec![line("me", "x")], "p1");
    assert_eq!(store.entries[0].id.len(), 36);
    assert_eq!(clear_unstarred(&mut store), 1);
    assert_eq!(store.entries.len(), 1);
    assert_eq!(store.entries[0].id, "a");
}

#[test]
fn ai_history_trim_keeps_starred() {
    let mut store = AIHistoryStore::new();
    save_generation_with(&mut store, entry("old-starred", true));
    for i in 0..MAX_AI_HISTORY {
        save_generation_with(&mut store, entry(&format!("e{i}"), false));
    }
    assert_eq!(store.entries.len(), MAX_AI_HISTORY);
    assert!(store.entries.iter().any(|e| e.id == "old-starred"));
}

#[test]
fn ai_history_toggle_twice_restores() {
    let mut store = AIHistoryStore::new();
    save_generation_with(&mut store, entry("x", false));
    assert!(toggle_star(&mut store, "x"));
    assert!(!toggle_star(&mut store, "x"));
    assert!(!store.entries[0].starred);
}

#[test]
fn stats_record_and_rank() {
    let mut t = StatsTracker::new(Stats::zero());
    let mut due = false;
    for i in 0..FLUSH_EVERY {
        due = t.record_send_on(i != 0, Some(if i < 3 { "A" } else { "B" }), "2024-01-01");
    }
    assert!(due);
    assert_eq!(t.dirty_count, 0);
    t.record_batch();
    let r = t.get_stats();
    assert_eq!(r.total_sent, 10);
    assert_eq!(r.total_success, 9);
    assert_eq!(r.total_failed, 1);
    assert_eq!(r.total_batches, 1);
    assert_eq!(r.success_rate_tenths, 900);
    assert_eq!(r.most_used_presets[0].name, "B");
    assert_eq!(r.most_used_presets[0].count, 7);
    assert_eq!(r.daily_counts, vec![("2024-01-01".to_string(), 10)]);
    t.reset();
    assert_eq!(t.get_stats().total_sent, 0);
}

#[test]
fn stats_rate_rounds_half_up() {
    let mut t = StatsTracker::new(Stats::zero());
    t.record_send_on(true, None, "d");
    t.record_send_on(true, None, "d");
    t.record_send_on(false, None, "d");
    assert_eq!(t.get_stats().success_rate_tenths, 667);
    assert_eq!(StatsTracker::new(Stats::zero()).get_stats().success_rate_tenths, 0);
}

#[test]
fn stats_keep_at_most_thirty_days() {
    let mut t = StatsTracker::new(Stats::zero());
    for d in 0..(MAX_DAYS + 3) {
        t.record_send_on(true, None, &format!("2024-02-{d:02}"));
    }
    let days = t.get_stats().daily_counts;
    assert_eq!(days.len(), MAX_DAYS);
    assert!(!days.iter().any(|(d, _)| d == "2024-02-00"));
    let mut u = StatsTracker::new(Stats::zero());
    u.record_send(true, None);
    assert_eq!(u.get_stats().daily_counts[0].0.len(), 10);
}

#[test]
fn notifications_drain() {
    let mut q = NotificationQueue::new();
    q.push("warning", "a");
    q.push_at("error", "b", "t".to_string());
    assert_eq!(q.get_all().len(), 2);
    assert_eq!(q.get_all()[1].message, "b");
    let items = q.drain();
    assert_eq!(items.len(), 2);
    assert_eq!(items[0].level, "warning");
    assert!(q.get_all().is_empty());
}
