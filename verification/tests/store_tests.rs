use clippy_history::capture_entry;
use clippy_history::clear_database;
use clippy_history::ensure_schema;
use clippy_history::init_database;
use clippy_history::init_database_in_memory;
use clippy_history::query_recent;
use clippy_history::store_entry;
use clippy_history::ClipboardEntry;

fn entry(date: &str, time: &str, content: &str) -> ClipboardEntry {
    ClipboardEntry {
        date: date.to_string(),
        time: time.to_string(),
        content: content.to_string(),
    }
}

#[test]
fn idempotent_schema_init() {
    let conn = init_database_in_memory().unwrap();
    store_entry(&conn, entry("2024-01-01", "10:00:00", "first")).unwrap();
    store_entry(&conn, entry("2024-01-01", "10:00:01", "second")).unwrap();
    // Running the schema statement again must neither error nor touch rows.
    ensure_schema(&conn).unwrap();
    ensure_schema(&conn).unwrap();
    let (rows, complete) = query_recent(&conn, 0).unwrap();
    assert!(complete);
    assert_eq!(rows.len(), 2);
    assert_eq!(rows[0].content, "second");
    assert_eq!(rows[1].content, "first");
}

#[test]
fn ordering_descending() {
    let conn = init_database_in_memory().unwrap();
    for i in 0..5 {
        store_entry(&conn, entry("2024-01-01", "10:00:00", &format!("c{}", i))).unwrap();
    }
    let (rows, complete) = query_recent(&conn, 0).unwrap();
    assert!(complete);
    assert_eq!(rows.len(), 5);
    for w in rows.windows(2) {
        assert!(w[0].id > w[1].id);
    }
    let contents: Vec<&str> = rows.iter().map(|r| r.content.as_str()).collect();
    assert_eq!(contents, vec!["c4", "c3", "c2", "c1", "c0"]);
}

#[test]
fn amount_cap() {
    let conn = init_database_in_memory().unwrap();
    for i in 0..10 {
        store_entry(&conn, entry("2024-01-01", "10:00:00", &format!("c{}", i))).unwrap();
    }
    let (rows, complete) = query_recent(&conn, 3).unwrap();
    assert!(complete);
    assert_eq!(rows.len(), 3);
    let contents: Vec<&str> = rows.iter().map(|r| r.content.as_str()).collect();
    assert_eq!(contents, vec!["c9", "c8", "c7"]);
}

#[test]
fn clear_empties_store() {
    let conn = init_database_in_memory().unwrap();
    for i in 0..4 {
        store_entry(&conn, entry("2024-01-01", "10:00:00", &format!("c{}", i))).unwrap();
    }
    let before = query_recent(&conn, 0).unwrap().0.len();
    let deleted = clear_database(&conn).unwrap();
    assert_eq!(deleted, before);
    let (rows, complete) = query_recent(&conn, 0).unwrap();
    assert!(complete);
    assert!(rows.is_empty());
}

#[test]
fn clear_on_empty_store_reports_zero() {
    let conn = init_database_in_memory().unwrap();
    assert_eq!(clear_database(&conn).unwrap(), 0);
}

#[test]
fn init_database_fails_on_unreachable_path() {
    let result = init_database("/nonexistent_directory_for_clippy_history/sub/clipboard.db");
    assert!(result.is_err());
}

#[test]
fn captured_entry_keeps_content() {
    let e = capture_entry("copied text".to_string());
    assert_eq!(e.content, "copied text");
}

#[test]
fn stored_ids_strictly_increase_in_insertion_order() {
    let conn = init_database_in_memory().unwrap();
    store_entry(&conn, entry("2024-01-01", "10:00:00", "A")).unwrap();
    store_entry(&conn, entry("2024-01-01", "10:00:01", "B")).unwrap();
    store_entry(&conn, entry("2024-01-01", "10:00:02", "C")).unwrap();
    let (rows, _) = query_recent(&conn, 0).unwrap();
    assert_eq!(rows.len(), 3);
    // Most recent first: C then B then A, ids strictly decreasing.
    assert_eq!(rows[0].content, "C");
    assert_eq!(rows[1].content, "B");
    assert_eq!(rows[2].content, "A");
    assert!(rows[2].id < rows[1].id && rows[1].id < rows[0].id);
}

#[test]
fn captured_entry_has_fixed_date_and_time_forms() {
    let e = capture_entry("copied".to_string());
    let date: Vec<char> = e.date.chars().collect();
    assert!(date.len() >= 10);
    assert_eq!(date[date.len() - 6], '-');
    assert_eq!(date[date.len() - 3], '-');
    for (i, c) in date.iter().enumerate() {
        if i != date.len() - 6 && i != date.len() - 3 {
            assert!(c.is_ascii_digit() || (i == 0 && (*c == '+' || *c == '-')));
        }
    }
    let time: Vec<char> = e.time.chars().collect();
    assert_eq!(time.len(), 8);
    assert_eq!(time[2], ':');
    assert_eq!(time[5], ':');
    for (i, c) in time.iter().enumerate() {
        if i != 2 && i != 5 {
            assert!(c.is_ascii_digit());
        }
    }
}

#[test]
fn decode_failure_aborts_remaining_rows() {
    let row = |id: i64, content: &str| clippy_history::StoredEntry {
        id,
        date: "2024-01-01".to_string(),
        time: "10:00:00".to_string(),
        content: content.to_string(),
    };
    let outcomes = vec![Some(row(1, "a")), Some(row(2, "b")), None, Some(row(3, "c"))];
    let (rows, complete) = clippy_history::take_decoded_prefix(outcomes);
    assert!(!complete);
    assert_eq!(rows.len(), 2);
    assert_eq!(rows[0].content, "a");
    assert_eq!(rows[1].content, "b");
}

#[test]
fn decode_of_all_rows_is_complete() {
    let row = |id: i64| clippy_history::StoredEntry {
        id,
        date: "2024-01-01".to_string(),
        time: "10:00:00".to_string(),
        content: "x".to_string(),
    };
    let (rows, complete) = clippy_history::take_decoded_prefix(vec![Some(row(1)), Some(row(2))]);
    assert!(complete);
    assert_eq!(rows.len(), 2);
    let (rows, complete) = clippy_history::take_decoded_prefix(Vec::new());
    assert!(complete);
    assert!(rows.is_empty());
}
