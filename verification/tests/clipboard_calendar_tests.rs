use ai_assistance::calendar::{calendar_events_or_sample, CalendarEvent};
use ai_assistance::clipboard::{clipboard_preview, history_limit, record_copy, should_record};

#[test]
fn previews_cut_long_texts() {
    assert_eq!(clipboard_preview("short"), "short");
    let long = "a".repeat(100);
    assert_eq!(clipboard_preview(&long), format!("{}...", "a".repeat(77)));
    let eighty = "b".repeat(80);
    assert_eq!(clipboard_preview(&eighty), eighty);
    // 40 two-byte characters are 80 bytes: kept whole
    let forty = "é".repeat(40);
    assert_eq!(clipboard_preview(&forty), forty);
    // 50 two-byte characters are 100 bytes: all 50 kept (fewer than 77) and marked
    let fifty = "é".repeat(50);
    assert_eq!(clipboard_preview(&fifty), format!("{}...", fifty));
}

#[test]
fn repeated_copies_are_recorded_once() {
    let mut history = Vec::new();
    record_copy(&mut history, "one", 1, 10);
    record_copy(&mut history, "one", 2, 11);
    assert_eq!(history.len(), 1);
    record_copy(&mut history, "two", 3, 12);
    record_copy(&mut history, "one", 4, 13);
    let contents: Vec<&str> = history.iter().map(|e| e.content.as_str()).collect();
    assert_eq!(contents, vec!["one", "two", "one"]);
    assert_eq!(history[2].id, 4);
    assert_eq!(history[2].copied_at, 13);
    assert_eq!(history[2].preview, "one");
    assert!(!should_record(Some("x"), "x"));
    assert!(should_record(Some("x"), "y"));
    assert!(should_record(None, "x"));
}

#[test]
fn page_sizes() {
    assert_eq!(history_limit(None), 30);
    assert_eq!(history_limit(Some(500)), 100);
    assert_eq!(history_limit(Some(12)), 12);
    assert_eq!(history_limit(Some(-1)), -1);
}

#[test]
fn sample_day_when_nothing_is_stored() {
    let s = calendar_events_or_sample(Vec::new(), "2025-03-04");
    assert_eq!(s.len(), 3);
    assert_eq!(s[0].title, "Morning planning and priority review");
    assert_eq!(s[0].start_time, "2025-03-04 08:45");
    assert_eq!(s[1].end_time, "2025-03-04 11:30");
    assert!(s[1].is_deep_work_block);
    assert!(!s[2].is_deep_work_block);
    let stored = vec![CalendarEvent {
        title: "x".to_string(),
        start_time: "a".to_string(),
        end_time: "b".to_string(),
        is_deep_work_block: false,
    }];
    let r = calendar_events_or_sample(stored, "2025-03-04");
    assert_eq!(r.len(), 1);
    assert_eq!(r[0].title, "x");
}
