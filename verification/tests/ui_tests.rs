use beads_workers::types::{WorkerInfo, WorkerState};
use beads_workers::ui::{display_status_text, task_label_exec, Dashboard, DashboardStats, KeyInput, KeyPress, TermColor};

#[test]
fn test_dashboard_creation() {
    let dashboard = Dashboard::new(2);
    assert_eq!(dashboard.refresh_interval_secs(), 2);
    assert!(!dashboard.is_running());
}

#[test]
fn test_format_worker_state() {
    let dashboard = Dashboard::new(1);
    assert_eq!(dashboard.format_worker_state(WorkerState::Idle), "Idle");
    assert_eq!(dashboard.format_worker_state(WorkerState::Working), "Working");
    assert_eq!(dashboard.format_worker_state(WorkerState::Waiting), "Waiting");
}

#[test]
fn test_dashboard_stats_default() {
    let stats = DashboardStats::default();
    assert_eq!(stats.total_workers, 0);
    assert_eq!(stats.total_tasks_completed, 0);
}

#[test]
fn test_fetch_mock_data() {
    let dashboard = Dashboard::new(1);
    let stats = dashboard.fetch_stats();
    assert!(stats.total_workers > 0);
    let workers = dashboard.fetch_workers();
    assert!(!workers.is_empty());
    assert_eq!(workers[0].current_task, Some("beads-workers-abc-1".to_string()));
    assert_eq!(workers[3].state, WorkerState::Idle);
    assert_eq!(workers[4].tasks_completed, 50);
}

#[test]
fn test_display_status_empty() {
    let stats = DashboardStats::default();
    let workers = Vec::new();
    let text = display_status_text(&stats, &workers, true);
    assert!(text.contains("  No workers connected.\n"));
    assert!(text.contains("BEADS WORKERS - STATUS"));
}

#[test]
fn test_key_handling() {
    let mut d = Dashboard::new(1);
    d.start();
    assert!(!d.handle_key_event(KeyInput { code: KeyPress::Char('c'), control: false }));
    assert!(d.is_running());
    assert!(d.handle_key_event(KeyInput { code: KeyPress::Char('c'), control: true }));
    assert!(!d.is_running());
    d.start();
    assert!(d.handle_key_event(KeyInput { code: KeyPress::Char('Q'), control: false }));
    d.start();
    assert!(d.handle_key_event(KeyInput { code: KeyPress::Esc, control: false }));
    assert!(!d.handle_key_event(KeyInput { code: KeyPress::Other, control: true }));
}

#[test]
fn test_task_labels() {
    assert_eq!(task_label_exec(&None), "-");
    assert_eq!(task_label_exec(&Some("short".to_string())), "short");
    assert_eq!(task_label_exec(&Some("a".repeat(22))), "a".repeat(22));
    assert_eq!(task_label_exec(&Some("beads-workers-abc-123456".to_string())), "beads-workers-abc-1234...");
    // Two-byte characters: the cut falls after eleven of them.
    assert_eq!(task_label_exec(&Some("é".repeat(12))), format!("{}...", "é".repeat(11)));
}

#[test]
fn test_screen_and_plain_rows() {
    let d = Dashboard::new(3);
    let mut w = WorkerInfo::new_at("W1".to_string(), 0);
    w.state = WorkerState::ShuttingDown;
    w.tasks_completed = 7;
    let workers = vec![w];
    let segs = d.screen(&DashboardStats::default(), &workers);
    let row_state = segs.iter().find(|s| s.text.starts_with("Shutting Down")).unwrap();
    assert_eq!(row_state.color, Some(TermColor::Magenta));
    assert_eq!(row_state.text, format!("{:<15}", "Shutting Down"));
    let id_cell = segs.iter().find(|s| s.text.starts_with("W1")).unwrap();
    assert_eq!(id_cell.text, format!("{:<12} ", "W1"));
    let last = segs.last().unwrap();
    assert_eq!(last.text, "Press 'q' or Ctrl+C to quit  |  Refreshing every 3s\n");
    let plain = display_status_text(&DashboardStats::default(), &workers, true);
    let row = format!("{:<12} {:<15} {:<25} {:<10} {:<10}\n", "W1", "ShuttingDown", "-", 7, 0);
    assert!(plain.contains(&row));
    let header = format!("{:<12} {:<15} {:<25} {:<10} {:<10}\n", "Worker ID", "State", "Current Task", "Completed", "Failed");
    assert!(plain.contains(&header));
    let rule = "\u{2500}".repeat(79);
    assert!(plain.ends_with(&format!("{}\n", rule)));
}
