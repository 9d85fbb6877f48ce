use clippy_history::i64_to_dec_string;
use clippy_history::init_database_in_memory;
use clippy_history::list_recent;
use clippy_history::record_sequence;
use clippy_history::render_entries;
use clippy_history::render_entry;
use clippy_history::select_recent;
use clippy_history::store_entry;
use clippy_history::ClipboardEntry;
use clippy_history::Recorder;
use clippy_history::StoredEntry;

fn stored(id: i64, content: &str) -> StoredEntry {
    StoredEntry {
        id,
        date: "2024-01-02".to_string(),
        time: "03:04:05".to_string(),
        content: content.to_string(),
    }
}

#[test]
fn render_shows_both_tokens_by_default() {
    let line = render_entry(&stored(7, "x"), false, false);
    assert_eq!(line.as_str(), "[7] 2024-01-02 03:04:05 x");
}

#[test]
fn render_hide_time_omits_only_time() {
    let line = render_entry(&stored(7, "x"), true, false);
    assert_eq!(line.as_str(), "[7] 2024-01-02 x");
}

#[test]
fn render_hide_date_omits_only_date() {
    let line = render_entry(&stored(7, "x"), false, true);
    assert_eq!(line.as_str(), "[7] 03:04:05 x");
}

#[test]
fn render_hide_both_keeps_content() {
    let line = render_entry(&stored(7, "x"), true, true);
    assert_eq!(line.as_str(), "[7] x");
}

#[test]
fn render_entries_renders_each_in_order() {
    let rows = vec![stored(2, "b"), stored(1, "a")];
    let lines = render_entries(&rows, true, true);
    assert_eq!(lines.len(), 2);
    assert_eq!(lines[0].as_str(), "[2] b");
    assert_eq!(lines[1].as_str(), "[1] a");
}

#[test]
fn decimal_rendering_of_ids() {
    assert_eq!(i64_to_dec_string(0).as_str(), "0");
    assert_eq!(i64_to_dec_string(7).as_str(), "7");
    assert_eq!(i64_to_dec_string(12345).as_str(), "12345");
    assert_eq!(i64_to_dec_string(-42).as_str(), "-42");
    assert_eq!(i64_to_dec_string(i64::MAX).as_str(), "9223372036854775807");
    assert_eq!(i64_to_dec_string(i64::MIN).as_str(), "-9223372036854775808");
}

#[test]
fn select_recent_takes_top_ids() {
    let rows = vec![stored(3, "c"), stored(1, "a"), stored(4, "d"), stored(2, "b")];
    let top = select_recent(rows, 2);
    assert_eq!(top.len(), 2);
    assert_eq!(top[0].id, 4);
    assert_eq!(top[1].id, 3);
}

#[test]
fn select_recent_zero_keeps_all_sorted() {
    let rows = vec![stored(3, "c"), stored(1, "a"), stored(2, "b")];
    let all = select_recent(rows, 0);
    let ids: Vec<i64> = all.iter().map(|r| r.id).collect();
    assert_eq!(ids, vec![3, 2, 1]);
}

#[test]
fn recorder_skips_consecutive_duplicates() {
    let reads = vec![
        "A".to_string(),
        "A".to_string(),
        "B".to_string(),
        "B".to_string(),
        "B".to_string(),
        "C".to_string(),
    ];
    let recorded = record_sequence(&reads);
    assert_eq!(recorded, vec!["A".to_string(), "B".to_string(), "C".to_string()]);
}

#[test]
fn recorder_starts_empty_and_tracks_last_seen() {
    let mut recorder = Recorder::new();
    // The initial last seen value is the empty string, so an empty read is skipped.
    assert!(!recorder.observe(String::new()));
    assert!(recorder.observe("A".to_string()));
    assert!(!recorder.observe("A".to_string()));
    assert!(recorder.observe("".to_string()));
}

#[test]
fn end_to_end_latest_entry_listed() {
    let conn = init_database_in_memory().unwrap();
    let hello = ClipboardEntry {
        date: "2024-01-02".to_string(),
        time: "03:04:05".to_string(),
        content: "hello".to_string(),
    };
    let world = ClipboardEntry {
        date: "2024-01-02".to_string(),
        time: "03:04:06".to_string(),
        content: "world".to_string(),
    };
    store_entry(&conn, hello).unwrap();
    store_entry(&conn, world).unwrap();
    let (lines, complete) = list_recent(&conn, false, false, 1).unwrap();
    assert!(complete);
    assert_eq!(lines.len(), 1);
    assert!(lines[0].ends_with(" world"));

    clippy_history::clear_database(&conn).unwrap();
    let (lines, complete) = list_recent(&conn, false, false, 0).unwrap();
    assert!(complete);
    assert_eq!(lines.len(), 0);
}
