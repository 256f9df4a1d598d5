use review_queue::engine::ReviewEngine;
use review_queue::item::NotifyPayload;
use review_queue::item::ReviewItem;

fn payload(title: &str) -> NotifyPayload {
    NotifyPayload {
        title: title.to_string(),
        project: None,
        project_path: None,
        session_id: None,
        tmux_session: None,
        tmux_window: None,
        tmux_pane: None,
    }
}

fn payload_at(title: &str, session: &str, window: &str, pane: &str) -> NotifyPayload {
    NotifyPayload {
        title: title.to_string(),
        project: None,
        project_path: None,
        session_id: None,
        tmux_session: Some(session.to_string()),
        tmux_window: Some(window.to_string()),
        tmux_pane: Some(pane.to_string()),
    }
}

fn item(id: &str, seq: u64, title: &str, timestamp: u64) -> ReviewItem {
    ReviewItem {
        id: id.to_string(),
        seq,
        title: title.to_string(),
        project: None,
        timestamp,
        tmux_session: None,
        tmux_window: None,
        tmux_pane: None,
        session_id: None,
        project_path: None,
    }
}

#[test]
fn seq_values_strictly_increase() {
    let mut e = ReviewEngine::new();
    let mut seqs: Vec<u64> = Vec::new();
    for n in 0..5u64 {
        e.ingest(payload("event"), 1000 + n, 1 + n);
        let snap = e.pending_snapshot();
        seqs.push(snap.last().unwrap().seq);
    }
    for w in seqs.windows(2) {
        assert!(w[0] < w[1]);
    }
}

#[test]
fn seq_values_survive_restart() {
    let mut e = ReviewEngine::new();
    e.ingest(payload("one"), 1000, 1);
    e.ingest(payload("two"), 2000, 2);
    let stored = e.sequencer.stored_text();
    let mut e2 = ReviewEngine::restore(Vec::new(), Vec::new(), Some(stored.as_str()));
    e2.ingest(payload("three"), 3000, 3);
    let snap = e2.pending_snapshot();
    assert_eq!(snap[0].seq, 3);
}

#[test]
fn restart_reads_stored_counter() {
    let mut e = ReviewEngine::restore(Vec::new(), Vec::new(), Some("5"));
    assert_eq!(e.sequencer.peek(), 5);
    e.ingest(payload("event"), 1000, 1);
    assert_eq!(e.pending_snapshot()[0].seq, 5);
}

#[test]
fn corrupt_counter_starts_at_one() {
    let e = ReviewEngine::restore(Vec::new(), Vec::new(), Some("not a number"));
    assert_eq!(e.sequencer.peek(), 1);
    let e2 = ReviewEngine::restore(Vec::new(), Vec::new(), None);
    assert_eq!(e2.sequencer.peek(), 1);
}

#[test]
fn ingest_collapses_same_triple() {
    let mut e = ReviewEngine::new();
    e.ingest(payload_at("first", "main", "1", "0"), 1000, 1);
    e.ingest(payload_at("second", "main", "1", "0"), 2000, 2);
    let snap = e.pending_snapshot();
    assert_eq!(snap.len(), 1);
    assert_eq!(snap[0].title, "second");
    assert_eq!(snap[0].seq, 2);
}

#[test]
fn ingest_keeps_other_triples() {
    let mut e = ReviewEngine::new();
    e.ingest(payload_at("a", "main", "1", "0"), 1000, 1);
    e.ingest(payload_at("b", "main", "2", "0"), 2000, 2);
    e.ingest(payload_at("c", "other", "1", "0"), 3000, 3);
    assert_eq!(e.pending_snapshot().len(), 3);
}

#[test]
fn ingest_partial_triple_only_matches_exactly() {
    let mut e = ReviewEngine::new();
    let mut p = payload("partial");
    p.tmux_session = Some("main".to_string());
    e.ingest(p, 1000, 1);
    e.ingest(payload_at("full", "main", "1", "0"), 2000, 2);
    assert_eq!(e.pending_snapshot().len(), 2);
    let mut p2 = payload("partial again");
    p2.tmux_session = Some("main".to_string());
    e.ingest(p2, 3000, 3);
    let snap = e.pending_snapshot();
    assert_eq!(snap.len(), 2);
    assert_eq!(snap.last().unwrap().title, "partial again");
}

#[test]
fn ingest_without_tmux_removes_nothing() {
    let mut e = ReviewEngine::new();
    e.ingest(payload("a"), 1000, 1);
    e.ingest(payload_at("b", "main", "1", "0"), 2000, 2);
    e.ingest(payload("c"), 3000, 3);
    assert_eq!(e.pending_snapshot().len(), 3);
}

#[test]
fn consume_removes_minimal_timestamp() {
    let pending = vec![
        item("x", 1, "late", 50),
        item("y", 2, "early", 10),
        item("z", 3, "middle", 30),
    ];
    let mut e = ReviewEngine::restore(pending, Vec::new(), None);
    let got = e.consume_oldest().unwrap();
    assert_eq!(got.id, "y");
    assert_eq!(got.timestamp, 10);
    assert_eq!(e.pending_snapshot().len(), 2);
    let head = e.completed_page(None, None);
    assert_eq!(head[0].id, "y");
}

#[test]
fn consume_tie_takes_first_arrival() {
    let pending = vec![item("a", 1, "one", 20), item("b", 2, "two", 20)];
    let mut e = ReviewEngine::restore(pending, Vec::new(), None);
    let got = e.consume_oldest().unwrap();
    assert_eq!(got.id, "a");
}

#[test]
fn consume_on_empty_changes_nothing() {
    let mut e = ReviewEngine::new();
    assert!(e.consume_oldest().is_none());
    assert_eq!(e.pending_snapshot().len(), 0);
    assert_eq!(e.completed_page(None, None).len(), 0);
}

#[test]
fn consume_keeps_arrival_timestamp() {
    let pending = vec![item("a", 1, "one", 20)];
    let mut e = ReviewEngine::restore(pending, Vec::new(), None);
    let got = e.consume_oldest().unwrap();
    assert_eq!(got.timestamp, 20);
    assert_eq!(e.completed_page(None, None)[0].timestamp, 20);
}

#[test]
fn consume_by_id_archives_unchanged() {
    let pending = vec![item("a", 1, "one", 20), item("b", 2, "two", 30)];
    let mut e = ReviewEngine::restore(pending, Vec::new(), None);
    let got = e.consume_by_id(&"b".to_string()).unwrap();
    assert_eq!(got.id, "b");
    assert_eq!(got.timestamp, 30);
    let snap = e.pending_snapshot();
    assert_eq!(snap.len(), 1);
    assert_eq!(snap[0].id, "a");
}

#[test]
fn dismiss_rewrites_timestamp_and_archives() {
    let pending = vec![
        item("a", 1, "one", 20),
        item("b", 2, "two", 30),
        item("c", 3, "three", 40),
    ];
    let mut e = ReviewEngine::restore(pending, Vec::new(), None);
    let got = e.dismiss_by_id(&"b".to_string(), 999).unwrap();
    assert_eq!(got.id, "b");
    assert_eq!(got.timestamp, 999);
    let snap = e.pending_snapshot();
    assert_eq!(snap.len(), 2);
    assert!(snap.iter().all(|it| it.id != "b"));
    let page = e.completed_page(None, None);
    assert_eq!(page.len(), 1);
    assert_eq!(page[0].id, "b");
    assert_eq!(page[0].timestamp, 999);
}

#[test]
fn absent_id_changes_nothing() {
    let pending = vec![item("a", 1, "one", 20)];
    let mut e = ReviewEngine::restore(pending, Vec::new(), None);
    assert!(e.dismiss_by_id(&"ghost".to_string(), 999).is_none());
    assert!(e.consume_by_id(&"ghost".to_string()).is_none());
    e.delete_by_id(&"ghost".to_string());
    let snap = e.pending_snapshot();
    assert_eq!(snap.len(), 1);
    assert_eq!(snap[0].id, "a");
    assert_eq!(snap[0].timestamp, 20);
    assert_eq!(e.completed_page(None, None).len(), 0);
}

#[test]
fn delete_removes_silently() {
    let pending = vec![item("a", 1, "one", 20), item("b", 2, "two", 30)];
    let mut e = ReviewEngine::restore(pending, Vec::new(), None);
    e.delete_by_id(&"a".to_string());
    let snap = e.pending_snapshot();
    assert_eq!(snap.len(), 1);
    assert_eq!(snap[0].id, "b");
    assert_eq!(e.completed_page(None, None).len(), 0);
}

#[test]
fn delete_removes_every_item_with_the_id() {
    let pending = vec![
        item("dup", 1, "one", 20),
        item("other", 2, "two", 30),
        item("dup", 3, "three", 40),
    ];
    let mut e = ReviewEngine::restore(pending, Vec::new(), None);
    e.delete_by_id(&"dup".to_string());
    let snap = e.pending_snapshot();
    assert_eq!(snap.len(), 1);
    assert_eq!(snap[0].id, "other");
}

#[test]
fn dismiss_removes_first_of_duplicate_ids() {
    let pending = vec![item("dup", 1, "one", 20), item("dup", 2, "two", 30)];
    let mut e = ReviewEngine::restore(pending, Vec::new(), None);
    let got = e.dismiss_by_id(&"dup".to_string(), 999).unwrap();
    assert_eq!(got.seq, 1);
    let snap = e.pending_snapshot();
    assert_eq!(snap.len(), 1);
    assert_eq!(snap[0].seq, 2);
}

#[test]
fn clear_empties_completed() {
    let log = vec![item("a", 1, "one", 10), item("b", 2, "two", 20)];
    let mut e = ReviewEngine::restore(Vec::new(), log, None);
    assert_eq!(e.completed_size(), 2);
    e.clear_completed();
    assert_eq!(e.completed_size(), 0);
    assert_eq!(e.completed_page(None, None).len(), 0);
    let e2 = ReviewEngine::restore(Vec::new(), Vec::new(), None);
    assert_eq!(e2.completed_size(), 0);
}

#[test]
fn page_is_newest_first_and_clipped() {
    let log: Vec<ReviewItem> = (0..5u64)
        .map(|n| item(&format!("i{}", n), n + 1, "t", 10 + n))
        .collect();
    let e = ReviewEngine::restore(Vec::new(), log, None);
    let full = e.completed_page(None, None);
    assert_eq!(full.len(), 5);
    assert_eq!(full[0].id, "i4");
    assert_eq!(full[4].id, "i0");
    let middle = e.completed_page(Some(2), Some(1));
    assert_eq!(middle.len(), 2);
    assert_eq!(middle[0].id, "i3");
    assert_eq!(middle[1].id, "i2");
    let clipped = e.completed_page(Some(10), Some(3));
    assert_eq!(clipped.len(), 2);
    assert_eq!(clipped[0].id, "i1");
    let beyond = e.completed_page(Some(10), Some(5));
    assert_eq!(beyond.len(), 0);
    let far_beyond = e.completed_page(Some(10), Some(1000));
    assert_eq!(far_beyond.len(), 0);
    let zero = e.completed_page(Some(0), Some(0));
    assert_eq!(zero.len(), 0);
}

#[test]
fn archive_keeps_newest_hundred() {
    let log: Vec<ReviewItem> = (0..150u64)
        .map(|n| item(&format!("i{}", n), n + 1, "t", n))
        .collect();
    let mut e = ReviewEngine::restore(Vec::new(), log, None);
    let page = e.completed_page(Some(200), Some(0));
    assert_eq!(page.len(), 100);
    assert_eq!(page[0].id, "i149");
    assert_eq!(page[99].id, "i50");
    e.ingest(payload("new"), 1000, 500);
    e.consume_oldest();
    let page2 = e.completed_page(Some(200), Some(0));
    assert_eq!(page2.len(), 100);
    assert_eq!(page2[0].title, "new");
    assert_eq!(page2[99].id, "i51");
}

#[test]
fn scenario_repeat_notification_then_consume() {
    let mut e = ReviewEngine::new();
    e.ingest(payload_at("build failed", "main", "1", "0"), 1000, 1);
    let snap1 = e.pending_snapshot();
    assert_eq!(snap1.len(), 1);
    assert_eq!(snap1[0].seq, 1);
    e.ingest(payload_at("build failed again", "main", "1", "0"), 2000, 2);
    let snap2 = e.pending_snapshot();
    assert_eq!(snap2.len(), 1);
    assert_eq!(snap2[0].seq, 2);
    let got = e.consume_oldest().unwrap();
    assert_eq!(got.seq, 2);
    assert_eq!(e.pending_snapshot().len(), 0);
    let head = e.completed_page(None, None);
    assert_eq!(head[0].seq, 2);
    assert_eq!(head[0].title, "build failed again");
}

#[test]
fn ingest_assigns_id_and_fields() {
    let mut e = ReviewEngine::new();
    let mut p = payload_at("build failed", "main", "1", "0");
    p.project = Some("proj".to_string());
    p.project_path = Some("/tmp/proj".to_string());
    p.session_id = Some("sess".to_string());
    let id = e.ingest(p, 1700000000123, 1700000000);
    assert_eq!(id, "1700000000123");
    let snap = e.pending_snapshot();
    let it = &snap[0];
    assert_eq!(it.id, "1700000000123");
    assert_eq!(it.seq, 1);
    assert_eq!(it.title, "build failed");
    assert_eq!(it.project.as_deref(), Some("proj"));
    assert_eq!(it.project_path.as_deref(), Some("/tmp/proj"));
    assert_eq!(it.session_id.as_deref(), Some("sess"));
    assert_eq!(it.timestamp, 1700000000);
    assert_eq!(it.tmux_session.as_deref(), Some("main"));
    assert_eq!(it.tmux_window.as_deref(), Some("1"));
    assert_eq!(it.tmux_pane.as_deref(), Some("0"));
}

#[test]
fn page_default_limit_is_fifty() {
    let log: Vec<ReviewItem> = (0..60u64)
        .map(|n| item(&format!("i{}", n), n + 1, "t", n))
        .collect();
    let e = ReviewEngine::restore(Vec::new(), log, None);
    let page = e.completed_page(None, None);
    assert_eq!(page.len(), 50);
    assert_eq!(page[0].id, "i59");
    assert_eq!(page[49].id, "i10");
}

#[test]
fn archive_hydrates_exactly_at_cap() {
    let log: Vec<ReviewItem> = (0..100u64)
        .map(|n| item(&format!("i{}", n), n + 1, "t", n))
        .collect();
    let e = ReviewEngine::restore(Vec::new(), log, None);
    let page = e.completed_page(Some(200), Some(0));
    assert_eq!(page.len(), 100);
    assert_eq!(page[0].id, "i99");
    assert_eq!(page[99].id, "i0");
}

#[test]
fn full_triple_gates_navigation() {
    let mut e = ReviewEngine::new();
    e.ingest(payload_at("full", "main", "1", "0"), 1000, 1);
    let mut partial = payload("partial");
    partial.tmux_session = Some("main".to_string());
    e.ingest(partial, 2000, 2);
    e.ingest(payload("none"), 3000, 3);
    let snap = e.pending_snapshot();
    assert!(snap[0].carries_full_triple());
    assert!(!snap[1].carries_full_triple());
    assert!(!snap[2].carries_full_triple());
}

#[test]
fn restore_keeps_pending_snapshot() {
    let pending = vec![item("a", 1, "one", 20), item("b", 2, "two", 30)];
    let e = ReviewEngine::restore(pending, Vec::new(), None);
    let snap = e.pending_snapshot();
    assert_eq!(snap.len(), 2);
    assert_eq!(snap[0].id, "a");
    assert_eq!(snap[1].id, "b");
    assert_eq!(e.pending_size(), 2);
}
