use beads_workers::task_poller::{BeadsIssue, TaskPoller};
use beads_workers::types::Task;

#[test]
fn test_task_poller_creation() {
    let poller = TaskPoller::new("/tmp/test");
    assert_eq!(poller.in_progress_count(), 0);
}

#[test]
fn test_task_poller_mark_in_progress() {
    let mut poller = TaskPoller::new("/tmp/test");

    poller.mark_in_progress("task-1");
    assert_eq!(poller.in_progress_count(), 1);
    assert!(poller.is_in_progress("task-1"));
    assert!(!poller.is_in_progress("task-2"));
}

#[test]
fn test_task_poller_mark_completed() {
    let mut poller = TaskPoller::new("/tmp/test");

    poller.mark_in_progress("task-1");
    poller.mark_in_progress("task-2");
    assert_eq!(poller.in_progress_count(), 2);

    poller.mark_completed("task-1");
    assert_eq!(poller.in_progress_count(), 1);
    assert!(!poller.is_in_progress("task-1"));
    assert!(poller.is_in_progress("task-2"));
}

#[test]
fn test_task_poller_mark_failed() {
    let mut poller = TaskPoller::new("/tmp/test");

    poller.mark_in_progress("task-1");
    assert!(poller.is_in_progress("task-1"));

    poller.mark_failed("task-1");
    assert!(!poller.is_in_progress("task-1"));
}

#[test]
fn test_task_poller_clear() {
    let mut poller = TaskPoller::new("/tmp/test");

    poller.mark_in_progress("task-1");
    poller.mark_in_progress("task-2");
    poller.mark_in_progress("task-3");
    assert_eq!(poller.in_progress_count(), 3);

    poller.clear_in_progress();
    assert_eq!(poller.in_progress_count(), 0);
}

#[test]
fn test_task_poller_prevents_duplicates() {
    let mut poller = TaskPoller::new("/tmp/test");
    poller.mark_in_progress("task-1");
    assert!(poller.is_in_progress("task-1"));
    assert!(!poller.is_in_progress("task-2"));
}

#[test]
fn test_task_poller_lifecycle() {
    let mut poller = TaskPoller::new("/tmp/test");
    assert_eq!(poller.in_progress_count(), 0);
    poller.mark_in_progress("task-1");
    assert_eq!(poller.in_progress_count(), 1);
    poller.mark_completed("task-1");
    assert_eq!(poller.in_progress_count(), 0);
    assert!(!poller.is_in_progress("task-1"));
}

#[test]
fn test_task_poller_failure_allows_retry() {
    let mut poller = TaskPoller::new("/tmp/test");
    poller.mark_in_progress("task-1");
    assert!(poller.is_in_progress("task-1"));
    poller.mark_failed("task-1");
    assert!(!poller.is_in_progress("task-1"));
    poller.mark_in_progress("task-1");
    assert!(poller.is_in_progress("task-1"));
}

#[test]
fn test_multiple_tasks_tracking() {
    let mut poller = TaskPoller::new("/tmp/test");
    poller.mark_in_progress("task-1");
    poller.mark_in_progress("task-2");
    poller.mark_in_progress("task-3");
    assert_eq!(poller.in_progress_count(), 3);
    poller.mark_completed("task-2");
    assert_eq!(poller.in_progress_count(), 2);
    assert!(poller.is_in_progress("task-1"));
    assert!(!poller.is_in_progress("task-2"));
    assert!(poller.is_in_progress("task-3"));
    poller.mark_failed("task-1");
    assert_eq!(poller.in_progress_count(), 1);
    assert!(poller.is_in_progress("task-3"));
}

#[test]
fn test_task_creation() {
    let task = Task::new("beads-workers-xyz.1".to_string(), 1, "Test task".to_string());
    assert_eq!(task.issue_id, "beads-workers-xyz.1");
    assert_eq!(task.priority, 1);
    assert_eq!(task.title, "Test task");
    assert!(task.queued_at > 0);
}

fn issue(id: &str, priority: u8) -> BeadsIssue {
    BeadsIssue {
        id: id.to_string(),
        title: format!("Title {}", id),
        description: String::new(),
        status: "open".to_string(),
        priority,
        issue_type: "task".to_string(),
        created_at: "2025-12-06T12:00:00Z".to_string(),
        updated_at: "2025-12-06T12:00:00Z".to_string(),
    }
}

#[test]
fn test_tasks_from_issues_skips_in_progress() {
    let mut poller = TaskPoller::new("/tmp/test");
    poller.mark_in_progress("b");
    let tasks = poller.tasks_from_issues(vec![issue("a", 1), issue("b", 0), issue("c", 3)], 77);
    let ids: Vec<&str> = tasks.iter().map(|t| t.issue_id.as_str()).collect();
    assert_eq!(ids, vec!["a", "c"]);
    assert_eq!(tasks[0].priority, 1);
    assert_eq!(tasks[0].title, "Title a");
    assert_eq!(tasks[1].queued_at, 77);
    assert_eq!(poller.beads_dir(), "/tmp/test");
}

#[test]
fn test_mark_twice_counts_once() {
    let mut poller = TaskPoller::new("/tmp/test");
    poller.mark_in_progress("x");
    poller.mark_in_progress("x");
    assert_eq!(poller.in_progress_count(), 1);
    poller.mark_completed("y");
    assert_eq!(poller.in_progress_count(), 1);
}
