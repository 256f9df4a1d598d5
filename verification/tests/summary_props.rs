use review_queue::item::ReviewItem;
use review_queue::settings::NotifierSettings;
use review_queue::summary::make_label;
use review_queue::summary::sort_by_timestamp;
use review_queue::summary::summarize;

fn item(id: &str, seq: u64, title: &str, timestamp: u64) -> ReviewItem {
    ReviewItem {
        id: id.to_string(),
        seq,
        title: title.to_string(),
        project: None,
        timestamp,
        tmux_session: None,
        tmux_window: None,
        tmux_pane: None,
        session_id: None,
        project_path: None,
    }
}

#[test]
fn label_shows_seq_and_title() {
    let it = item("a", 7, "hello", 1);
    assert_eq!(make_label(&it), "#7 hello");
}

#[test]
fn label_truncates_long_titles() {
    let it = item("a", 12, "abcdefghijklmnopqrstuvwxyz12345", 1);
    assert_eq!(make_label(&it), "#12 abcdefghijklmnopqrstuvwxyz123\u{2026}");
}

#[test]
fn sort_orders_ascending_and_keeps_ties_stable() {
    let items = vec![
        item("c", 3, "c", 30),
        item("a", 1, "a", 10),
        item("b", 2, "b", 10),
        item("d", 4, "d", 20),
    ];
    let sorted = sort_by_timestamp(items);
    let ids: Vec<&str> = sorted.iter().map(|it| it.id.as_str()).collect();
    assert_eq!(ids, vec!["a", "b", "d", "c"]);
}

#[test]
fn empty_summary_is_one_disabled_placeholder() {
    let entries = summarize(&Vec::new());
    assert_eq!(entries.len(), 1);
    assert_eq!(entries[0].key, "empty");
    assert_eq!(entries[0].label, "No messages");
    assert!(!entries[0].enabled);
}

#[test]
fn summary_lists_up_to_ten_entries() {
    let items: Vec<ReviewItem> = (0..7u64)
        .map(|n| item(&format!("i{}", n), n + 1, "title", 100 - n))
        .collect();
    let sorted = sort_by_timestamp(items);
    let entries = summarize(&sorted);
    assert_eq!(entries.len(), 7);
    assert_eq!(entries[0].key, "i6");
    assert_eq!(entries[0].label, "#7 title");
    assert!(entries.iter().all(|e| e.enabled));
}

#[test]
fn summary_collapses_overflow() {
    let items: Vec<ReviewItem> = (0..13u64)
        .map(|n| item(&format!("i{}", n), n + 1, "title", n))
        .collect();
    let sorted = sort_by_timestamp(items);
    let entries = summarize(&sorted);
    assert_eq!(entries.len(), 11);
    for (k, e) in entries.iter().take(10).enumerate() {
        assert_eq!(e.key, format!("i{}", k));
        assert!(e.enabled);
    }
    let more = &entries[10];
    assert_eq!(more.key, "more");
    assert_eq!(more.label, "... and 3 more");
    assert!(!more.enabled);
}

#[test]
fn summary_shows_exactly_ten_without_overflow() {
    let items: Vec<ReviewItem> = (0..10u64)
        .map(|n| item(&format!("i{}", n), n + 1, "title", n))
        .collect();
    let entries = summarize(&sort_by_timestamp(items));
    assert_eq!(entries.len(), 10);
    assert!(entries.iter().all(|e| e.enabled));
}

#[test]
fn summary_overflow_starts_at_eleven() {
    let items: Vec<ReviewItem> = (0..11u64)
        .map(|n| item(&format!("i{}", n), n + 1, "title", n))
        .collect();
    let entries = summarize(&sort_by_timestamp(items));
    assert_eq!(entries.len(), 11);
    assert_eq!(entries[10].key, "more");
    assert_eq!(entries[10].label, "... and 1 more");
    assert!(!entries[10].enabled);
}

#[test]
fn settings_defaults() {
    let s = NotifierSettings::default();
    assert!(s.notify);
    assert!(s.float_window);
    assert!(s.menu_bar);
    assert_eq!(s.shortcut, "F4");
}
