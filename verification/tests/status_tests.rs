use beads_workers::status::{
    format_status_at, format_timestamp, format_timestamp_at, latest_activity, memory_from_status, parse_pid,
    pid_candidates, project_stats_from, status_from_probes, ActivityEntry, HealthProbes, ProjectStats, WorkerStatus,
};
use beads_workers::types::unix_seconds;

#[test]
fn test_worker_status_new() {
    let status = WorkerStatus::new();
    assert!(!status.orchestrator_running);
    assert_eq!(status.worker_count, 0);
    assert!(status.timestamp > 0);
}

#[test]
fn test_project_stats_default() {
    let stats = ProjectStats::default();
    assert_eq!(stats.open_issues, 0);
    assert_eq!(stats.ready_issues, 0);
    assert_eq!(stats.closed_issues, 0);
}

#[test]
fn test_format_timestamp() {
    let now = unix_seconds();
    assert_eq!(format_timestamp(now), "0s ago");
    assert_eq!(format_timestamp(now - 30), "30s ago");
    assert_eq!(format_timestamp(now - 120), "2m ago");
    assert_eq!(format_timestamp(now - 7200), "2h ago");
}

#[test]
fn test_format_status() {
    let status = WorkerStatus::new();
    let output = format_status_at(&status, false, status.timestamp);
    assert!(output.contains("Beads Workers Status"));
    assert!(output.contains("Not running"));
    assert!(output.contains("Workers: 0"));
}

#[test]
fn test_format_timestamp_buckets() {
    assert_eq!(format_timestamp_at(1000, 1059), "59s ago");
    assert_eq!(format_timestamp_at(1000, 1060), "1m ago");
    assert_eq!(format_timestamp_at(0, 86399), "23h ago");
    assert_eq!(format_timestamp_at(0, 3 * 86400 + 5), "3d ago");
    assert_eq!(format_timestamp_at(5000, 10), "0s ago");
}

fn activity(ts: u64, kind: &str) -> ActivityEntry {
    ActivityEntry {
        timestamp: ts,
        activity_type: kind.to_string(),
        worker_id: Some("W1".to_string()),
        issue_id: Some(format!("i{}", ts)),
        details: None,
    }
}

#[test]
fn test_format_status_full() {
    let mut status = WorkerStatus::new_at(1000);
    status.orchestrator_running = true;
    status.orchestrator_pid = Some(4242);
    status.orchestrator_health.uptime_seconds = Some(3725);
    status.orchestrator_health.memory_bytes = Some(3 * 1048576 / 2);
    status.orchestrator_health.socket_path = Some("/tmp/s.sock".to_string());
    status.orchestrator_health.socket_exists = true;
    status.worker_count = 2;
    status.worker_pids = vec![11, 12];
    status.project_stats = ProjectStats { open_issues: 3, ready_issues: 2, blocked_issues: 1, in_progress_issues: 4, closed_issues: 5 };
    status.recent_activity = vec![activity(990, "task_completed")];
    let text = format_status_at(&status, true, 1000);
    let expected = "=== Beads Workers Status ===\n\n\
Orchestrator:\n  Status: Running (PID: 4242)\n  Uptime: 1h 2m 5s\n  Memory: 1.50 MB\n  Socket: /tmp/s.sock (exists)\n\n\
Workers: 2\n  PIDs: 11, 12\n\n\
Project Statistics:\n  Open: 3 (2 ready, 1 blocked)\n  In Progress: 4\n  Closed: 5\n\n\
Recent Activity:\n  [10s ago] task_completed - i990 (worker: W1)\n";
    assert_eq!(text, expected);
    let brief = format_status_at(&status, false, 1000);
    assert!(!brief.contains("PIDs"));
    assert!(!brief.contains("Recent Activity"));
}

#[test]
fn test_memory_two_decimals_match_float_display() {
    for bytes in [0u64, 1, 5242, 10485, 1048576, 1572864, 123456789, 5243, 15728, 26214, 131072, 393216, 655360] {
        let mut status = WorkerStatus::new_at(0);
        status.orchestrator_running = true;
        status.orchestrator_pid = Some(1);
        status.orchestrator_health.memory_bytes = Some(bytes);
        let text = format_status_at(&status, false, 0);
        let expected = format!("  Memory: {:.2} MB\n", bytes as f64 / (1024.0 * 1024.0));
        assert!(text.contains(&expected), "{} bytes: {}", bytes, text);
    }
}

#[test]
fn test_latest_activity_order() {
    let entries: Vec<ActivityEntry> = (0..15u64).map(|i| activity(i % 5 * 10, &format!("k{}", i))).collect();
    let latest = latest_activity(entries);
    assert_eq!(latest.len(), 10);
    let kinds: Vec<&str> = latest.iter().map(|a| a.activity_type.as_str()).collect();
    assert_eq!(kinds, vec!["k4", "k9", "k14", "k3", "k8", "k13", "k2", "k7", "k12", "k1"]);
}

#[test]
fn test_pid_parsing() {
    assert_eq!(parse_pid(" 1234\n"), Some(1234));
    assert_eq!(parse_pid("x"), None);
    assert_eq!(parse_pid("4294967296"), None);
    assert_eq!(pid_candidates("10\n\n 20 \r\nabc\n30"), vec![10, 20, 30]);
}

#[test]
fn test_memory_from_status() {
    let text = "Name:\tbeads\nVmPeak:\t 9000 kB\nVmRSS:\t  2048 kB\nThreads: 4\n";
    assert_eq!(memory_from_status(text), Some(2048 * 1024));
    assert_eq!(memory_from_status("Name: x\n"), Some(0));
    assert_eq!(memory_from_status("VmRSS: lots kB\n"), None);
}

#[test]
fn test_project_stats_from_issue_lines() {
    let content = [
        "{\"status\":\"open\"}",
        "{\"status\":\"open\",\"blocked_by\":[\"a\",\"b\"]}",
        "{\"status\":\"open\",\"blocked_by\":\"not a list\"}",
        "{\"status\":\"in_progress\"}",
        "{\"status\":\"closed\",\"blocked_by\":[]}",
        "{\"blocked_by\":[\"x\"]}",
        "{\"status\":7}",
        "not json",
        "   ",
    ]
    .join("\n");
    let stats = project_stats_from(&content);
    assert_eq!(stats.open_issues, 3);
    assert_eq!(stats.ready_issues, 2);
    assert_eq!(stats.blocked_issues, 1);
    assert_eq!(stats.in_progress_issues, 1);
    assert_eq!(stats.closed_issues, 1);
}

#[test]
fn test_status_from_probes() {
    let health = || HealthProbes { uptime_seconds: Some(3725), memory_bytes: Some(2048), cpu_percent_bits: Some(0.0f64.to_bits()) };
    let running = status_from_probes(
        500,
        Some((4242, true)),
        "/tmp/w.sock".to_string(),
        true,
        health(),
        vec![(10, true), (11, false), (12, true)],
        ProjectStats::default(),
        Vec::new(),
    );
    assert!(running.orchestrator_running);
    assert_eq!(running.orchestrator_pid, Some(4242));
    assert!(running.orchestrator_health.responsive);
    assert_eq!(running.orchestrator_health.uptime_seconds, Some(3725));
    assert_eq!(running.orchestrator_health.memory_bytes, Some(2048));
    assert_eq!(running.orchestrator_health.socket_path, Some("/tmp/w.sock".to_string()));
    assert_eq!(running.worker_pids, vec![10, 12]);
    assert_eq!(running.worker_count, 2);
    assert_eq!(running.timestamp, 500);

    let stale = status_from_probes(500, Some((4242, false)), "/tmp/w.sock".to_string(), false, health(), Vec::new(), ProjectStats::default(), Vec::new());
    assert!(!stale.orchestrator_running);
    assert_eq!(stale.orchestrator_pid, None);
    assert!(!stale.orchestrator_health.responsive);
    assert_eq!(stale.orchestrator_health.uptime_seconds, None);
    assert_eq!(stale.orchestrator_health.memory_bytes, None);
    assert_eq!(stale.orchestrator_health.cpu_percent_bits, None);
    assert!(!stale.orchestrator_health.socket_exists);
    assert_eq!(stale.worker_count, 0);
}
