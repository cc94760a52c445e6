use beads_workers::logs::{colorize_level, extract_worker_id, get_log_path, LogEntry, LogViewer};

fn entry(level: &str, worker: Option<&str>, message: &str) -> LogEntry {
    LogEntry {
        timestamp: "2024-01-01T12:00:00Z".to_string(),
        level: level.to_string(),
        worker_id: worker.map(|w| w.to_string()),
        target: "test".to_string(),
        message: message.to_string(),
        fields: Vec::new(),
    }
}

#[test]
fn test_extract_worker_id() {
    assert_eq!(extract_worker_id("Processing task for worker_id=W1"), Some("W1".to_string()));
    assert_eq!(extract_worker_id("Message from [W2]"), Some("W2".to_string()));
    assert_eq!(extract_worker_id("No worker here"), None);
}

#[test]
fn test_parse_plain_text_log() {
    let plain_log = "2024-01-01 12:00:00 INFO beads_workers::test: Test message";
    let entry = LogEntry::parse(plain_log, None);
    assert_eq!(entry.level, "INFO");
    assert!(entry.message.contains("Test message"));
    assert_eq!(entry.timestamp, "2024-01-01T12:00:00");
    assert_eq!(entry.target, "beads_workers::test");
    assert_eq!(entry.message, "Test message");
    assert_eq!(entry.worker_id, None);
    assert!(entry.fields.is_empty());
}

#[test]
fn test_parse_json_log() {
    let structured = LogEntry {
        timestamp: "2024-01-01T12:00:00Z".to_string(),
        level: "INFO".to_string(),
        worker_id: None,
        target: "test".to_string(),
        message: "Test message".to_string(),
        fields: Vec::new(),
    };
    let json_log = r#"{"timestamp":"2024-01-01T12:00:00Z","level":"INFO","target":"test","message":"Test message"}"#;
    let entry = LogEntry::parse(json_log, Some(structured));
    assert_eq!(entry.level, "INFO");
    assert_eq!(entry.message, "Test message");
}

#[test]
fn test_level_filter() {
    let entry = entry("ERROR", None, "Test");
    assert!(entry.matches_filter(Some("ERROR"), None));
    assert!(!entry.matches_filter(Some("INFO"), None));
    assert!(entry.matches_filter(None, None));
    assert!(entry.matches_filter(Some("error"), None));
}

#[test]
fn test_worker_filter() {
    let entry = entry("INFO", Some("W1"), "Test");
    assert!(entry.matches_filter(None, Some("W1")));
    assert!(!entry.matches_filter(None, Some("W2")));
}

#[test]
fn test_format_entry() {
    let entry = entry("INFO", Some("W1"), "Test message");
    let formatted = entry.format(false);
    assert!(formatted.contains("INFO"));
    assert!(formatted.contains("[W1]"));
    assert!(formatted.contains("Test message"));
    assert_eq!(formatted, "2024-01-01T12:00:00Z INFO [W1] test: Test message");
    assert_eq!(entry.format(true), "2024-01-01T12:00:00Z \x1b[32mINFO\x1b[0m [W1] test: Test message");
}

#[test]
fn test_parse_variants() {
    let e = LogEntry::parse("2024-01-01 12:00:00 WARN no colon here [W7] done", None);
    assert_eq!(e.target, "unknown");
    assert_eq!(e.message, "no colon here [W7] done");
    assert_eq!(e.worker_id, Some("W7".to_string()));
    let m = LogEntry::parse("short line", None);
    assert_eq!(m.level, "INFO");
    assert_eq!(m.target, "unknown");
    assert_eq!(m.message, "short line");
    assert!(m.worker_id.is_none());
    let w = LogEntry::parse("d t DEBUG mod:  worker_id=W12, started  ", None);
    assert_eq!(w.message, "worker_id=W12, started");
    assert_eq!(w.worker_id, Some("W12".to_string()));
}

#[test]
fn test_colors_and_paths() {
    assert_eq!(colorize_level("error"), "\x1b[31merror\x1b[0m");
    assert_eq!(colorize_level("TRACE"), "\x1b[35mTRACE\x1b[0m");
    assert_eq!(colorize_level("notice"), "notice");
    assert_eq!(get_log_path("/p/.beads"), "/p/.beads/workers.log");
}

#[test]
fn test_tail_lines() {
    let viewer = LogViewer::new("/p/.beads/workers.log".to_string())
        .with_level_filter(Some("info".to_string()))
        .with_colored(false);
    assert_eq!(viewer.log_path(), "/p/.beads/workers.log");
    let entries = vec![
        entry("INFO", None, "one"),
        entry("ERROR", None, "two"),
        entry("INFO", None, "three"),
        entry("INFO", None, "four"),
    ];
    let lines = viewer.tail_lines(&entries, 2);
    assert_eq!(lines, vec!["2024-01-01T12:00:00Z INFO test: four", "2024-01-01T12:00:00Z INFO test: three"]);
    let all = LogViewer::new("x".to_string()).with_colored(false).with_worker_filter(None).tail_lines(&entries, 10);
    assert_eq!(all.len(), 4);
}

#[test]
fn test_malformed_line_is_stamped_now() {
    let e = LogEntry::parse("garbage", None);
    assert!(e.timestamp.contains('T'));
    assert!(e.timestamp.ends_with("+00:00"));
    assert!(!e.timestamp.starts_with("1970"));
}

#[test]
fn test_malformed_line_stamp_keeps_subseconds() {
    // chrono writes the fraction only when there is one; a nanosecond clock
    // reading almost always has digits past the milliseconds.
    let stamps: Vec<String> = (0..5).map(|_| LogEntry::parse("garbage", None).timestamp).collect();
    assert!(stamps.iter().any(|t| t.contains('.') && t.split('.').nth(1).map_or(0, |f| f.trim_end_matches("+00:00").len()) > 3));
}
