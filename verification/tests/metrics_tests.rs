use beads_workers::metrics::{
    format_metrics_at, MetricsStore, Ratio, WorkerMetrics, ARCHIVE_KEEP_DAYS,
};

fn as_f64(r: Ratio) -> f64 {
    r.numerator as f64 / r.denominator as f64
}

#[test]
fn test_new_metrics() {
    let metrics = WorkerMetrics::new();
    assert_eq!(metrics.system.total_tasks_completed, 0);
    assert_eq!(metrics.workers.len(), 0);
}

#[test]
fn test_register_worker() {
    let mut metrics = WorkerMetrics::new();
    metrics.register_worker("W1".to_string());
    assert_eq!(metrics.workers.len(), 1);
    assert!(metrics.get_worker_metrics("W1").is_some());
}

#[test]
fn test_record_task_completion() {
    let mut metrics = WorkerMetrics::new();
    metrics.register_worker("W1".to_string());
    metrics.record_task_completion("W1".to_string(), "task-1".to_string(), 5000, Some(1));
    assert_eq!(metrics.system.total_tasks_completed, 1);
    let worker = metrics.get_worker_metrics("W1").unwrap();
    assert_eq!(worker.tasks_completed, 1);
    assert_eq!(as_f64(worker.avg_duration_ms()), 5000.0);
}

#[test]
fn test_record_task_failure() {
    let mut metrics = WorkerMetrics::new();
    metrics.register_worker("W1".to_string());
    metrics.record_task_failure("W1".to_string(), "task-1".to_string(), "Test error".to_string(), 3000, Some(1));
    assert_eq!(metrics.system.total_tasks_failed, 1);
    assert_eq!(metrics.errors.total_errors, 1);
    let worker = metrics.get_worker_metrics("W1").unwrap();
    assert_eq!(worker.tasks_failed, 1);
}

#[test]
fn test_success_rate_calculation() {
    let mut metrics = WorkerMetrics::new();
    metrics.register_worker("W1".to_string());
    metrics.record_task_completion("W1".to_string(), "task-1".to_string(), 1000, None);
    metrics.record_task_completion("W1".to_string(), "task-2".to_string(), 1000, None);
    metrics.record_task_failure("W1".to_string(), "task-3".to_string(), "error".to_string(), 1000, None);
    let worker = metrics.get_worker_metrics("W1").unwrap();
    assert!((as_f64(worker.success_rate()) - 0.666).abs() < 0.01);
}

#[test]
fn test_min_max_and_efficiency() {
    let mut m = WorkerMetrics::new_at(100);
    m.register_worker_at("W1".to_string(), 100);
    m.record_task_completion_at("W1".to_string(), "a".to_string(), 4000, None, 110);
    m.record_task_completion_at("W1".to_string(), "b".to_string(), 1000, Some(2), 120);
    let w = m.get_worker_metrics("W1").unwrap();
    assert_eq!(w.min_duration_ms, 1000);
    assert_eq!(w.max_duration_ms, 4000);
    assert_eq!(w.total_work_time_ms, 5000);
    assert_eq!(w.last_task_timestamp, Some(120));
    // 5000 ms of work in the 20 s since registration.
    assert_eq!(as_f64(w.efficiency()), 0.25);
    assert_eq!(m.last_updated, 120);
    // The history mean covers both recorded tasks.
    assert_eq!(as_f64(m.system.avg_task_duration_ms), 2500.0);
}

#[test]
fn test_median_and_rates() {
    let mut m = WorkerMetrics::new_at(0);
    for (i, d) in [30u64, 10, 20, 40].iter().enumerate() {
        m.record_task_completion_at("W9".to_string(), format!("t{}", i), *d, None, 10);
    }
    m.update_uptime_at(0, 7200);
    // Four records: durations 30, 10, 20, 40.
    assert_eq!(as_f64(m.system.avg_task_duration_ms), 25.0);
    assert_eq!(as_f64(m.system.median_task_duration_ms), 25.0);
    assert_eq!(as_f64(m.system.tasks_per_hour), 2.0);
    assert_eq!(m.system.uptime_seconds, 7200);
    assert_eq!(as_f64(m.system.success_rate()), 1.0);
    // Unregistered worker: only the system counts change.
    assert!(m.get_worker_metrics("W9").is_none());
    assert_eq!(m.task_history.len(), 4);
}

#[test]
fn test_history_trimmed() {
    let mut m = WorkerMetrics::new_at(0);
    for i in 0..1001u64 {
        m.record_task_completion_at("W1".to_string(), format!("t{}", i), 1, None, 1);
    }
    assert_eq!(m.task_history.len(), 901);
    assert_eq!(m.task_history[0].issue_id, "t100");
    for i in 0..101u64 {
        m.record_error_at(format!("e{}", i), "kind".to_string(), None, None, 5);
    }
    assert_eq!(m.errors.recent_errors.len(), 91);
    assert_eq!(m.errors.recent_errors[0].message, "e10");
    assert_eq!(m.errors.errors_by_type, vec![("kind".to_string(), 101)]);
    assert_eq!(m.errors.total_errors, 101);
}

#[test]
fn test_concurrency_peak() {
    let mut m = WorkerMetrics::new_at(0);
    m.update_concurrent_tasks_at(5, 1);
    m.update_concurrent_tasks_at(3, 2);
    assert_eq!(m.system.total_tasks_in_progress, 3);
    assert_eq!(m.system.peak_concurrent_tasks, 5);
}

#[test]
fn test_rankings_and_failures() {
    let mut m = WorkerMetrics::new_at(0);
    for w in ["W1", "W2", "W3"] {
        m.register_worker_at(w.to_string(), 0);
    }
    m.record_task_completion_at("W2".to_string(), "a".to_string(), 1, None, 1);
    m.record_task_completion_at("W2".to_string(), "b".to_string(), 1, None, 1);
    m.record_task_completion_at("W3".to_string(), "c".to_string(), 1, None, 1);
    m.record_task_failure_at("W3".to_string(), "d".to_string(), "x".to_string(), 1, None, 1);
    m.record_task_failure_at("W1".to_string(), "e".to_string(), "y".to_string(), 1, None, 2);
    let top: Vec<&str> = m.top_workers_by_completion(2).iter().map(|w| w.worker_id.as_str()).collect();
    assert_eq!(top, vec!["W2", "W3"]);
    let low: Vec<&str> = m.workers_by_lowest_success_rate(5).iter().map(|w| w.worker_id.as_str()).collect();
    assert_eq!(low, vec!["W1", "W3", "W2"]);
    let failures: Vec<&str> = m.recent_failures(1).iter().map(|t| t.issue_id.as_str()).collect();
    assert_eq!(failures, vec!["e"]);
    assert_eq!(m.recent_failures(10).len(), 2);
    assert_eq!(m.errors.errors_by_type, vec![("task_failure".to_string(), 2)]);
}

#[test]
fn test_format_metrics_report() {
    let mut m = WorkerMetrics::new_at(0);
    m.register_worker_at("W1".to_string(), 0);
    m.record_task_completion_at("W1".to_string(), "a".to_string(), 2000, None, 10);
    m.record_task_failure_at("W1".to_string(), "b".to_string(), "boom".to_string(), 1000, None, 20);
    m.update_uptime_at(0, 3725);
    let text = format_metrics_at(&m, true, 30);
    assert!(text.starts_with("=== Worker System Metrics ===\n\nSystem Overview:\n  Uptime: 1h 2m 5s\n"));
    assert!(text.contains("  Total Tasks: 1 completed, 1 failed\n"));
    assert!(text.contains("  Success Rate: 50.0%\n"));
    assert!(text.contains("Workers: 1\n"));
    assert!(text.contains("  W1 - 1 tasks (50.0% success, 1500ms avg, 15.0% efficiency)\n"));
    assert!(text.contains("\nErrors: 1\n  By Type:\n    task_failure: 1\n"));
    assert!(text.contains("\nRecent Errors:\n  [10s ago] task_failure: boom\n"));
    let short = format_metrics_at(&m, false, 30);
    assert!(!short.contains("By Type"));
}

#[test]
fn test_metrics_store_paths() {
    let store = MetricsStore::new("/p/.beads");
    assert_eq!(store.metrics_file(), "/p/.beads/beads-workers-metrics.json");
    assert_eq!(store.history_dir(), "/p/.beads/metrics-history");
    assert_eq!(store.archive_path(1700000000), "/p/.beads/metrics-history/metrics-1700000000.json");
    assert_eq!(MetricsStore::event_log_path("/p/.beads"), "/p/.beads/beads-workers-events.jsonl");
    assert_eq!(MetricsStore::archive_timestamp("metrics-42.json"), Some(42));
    assert_eq!(MetricsStore::archive_timestamp("metrics-.json"), None);
    assert_eq!(MetricsStore::archive_timestamp("other-42.json"), None);
    let day = 86400u64;
    assert!(MetricsStore::is_expired_archive("metrics-10.json", 40 * day, ARCHIVE_KEEP_DAYS));
    assert!(!MetricsStore::is_expired_archive("metrics-864000.json", 40 * day, ARCHIVE_KEEP_DAYS));
    assert!(!MetricsStore::is_expired_archive("notes.txt", 40 * day, ARCHIVE_KEEP_DAYS));
}

#[test]
fn test_consistency_check() {
    let mut metrics = WorkerMetrics::new_at(100);
    assert!(metrics.is_consistent());
    metrics.register_worker_at("W1".to_string(), 100);
    metrics.record_task_completion_at("W1".to_string(), "i-1".to_string(), 500, Some(1), 101);
    assert!(metrics.is_consistent());

    let mut duplicated = metrics.clone();
    let copy = duplicated.workers[0].clone();
    duplicated.workers.push(copy);
    assert!(!duplicated.is_consistent());

    let mut unusable = metrics.clone();
    unusable.system.tasks_per_hour.denominator = 0;
    assert!(!unusable.is_consistent());

    let mut overflowing = metrics.clone();
    overflowing.system.total_tasks_failed = u64::MAX;
    assert!(!overflowing.is_consistent());
}

#[test]
fn test_statistics_include_the_new_record() {
    let mut m = WorkerMetrics::new_at(0);
    m.register_worker_at("W1".to_string(), 0);
    m.record_task_completion_at("W1".to_string(), "t1".to_string(), 5000, Some(1), 10);
    assert_eq!(as_f64(m.system.avg_task_duration_ms), 5000.0);
    assert_eq!(as_f64(m.system.median_task_duration_ms), 5000.0);
    m.record_task_failure_at("W1".to_string(), "t2".to_string(), "boom".to_string(), 1000, None, 11);
    assert_eq!(as_f64(m.system.avg_task_duration_ms), 3000.0);
    assert_eq!(as_f64(m.system.median_task_duration_ms), 3000.0);
}

#[test]
fn test_error_total_matches_categories() {
    let mut m = WorkerMetrics::new_at(0);
    m.record_error_at("a".to_string(), "io".to_string(), None, None, 1);
    m.record_error_at("b".to_string(), "parse".to_string(), None, None, 2);
    m.record_error_at("c".to_string(), "io".to_string(), None, None, 3);
    let sum: u64 = m.errors.errors_by_type.iter().map(|(_, n)| *n).sum();
    assert_eq!(m.errors.total_errors, 3);
    assert_eq!(sum, 3);
    assert_eq!(m.errors.recent_errors.len(), 3);
}

#[test]
fn test_report_allows_long_history() {
    let mut m = WorkerMetrics::new_at(0);
    m.record_task_completion_at("W1".to_string(), "t".to_string(), 10, None, 1);
    let record = m.task_history[0].clone();
    for _ in 0..1100 {
        m.task_history.push(record.clone());
    }
    assert!(m.is_reportable());
    assert!(!m.is_consistent());
    assert!(format_metrics_at(&m, false, 5).contains("  Total Tasks: 1 completed, 0 failed\n"));
}
