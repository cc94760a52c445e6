use beads_workers::orchestrator::{Orchestrator, WorkerMessageEvent};
use beads_workers::types::{OrchestratorConfig, OrchestratorMessage, Task, WorkerMessage, WorkerState};

fn orchestrator(max_workers: usize) -> Orchestrator {
    let mut config = OrchestratorConfig::for_process(1);
    config.max_workers = max_workers;
    Orchestrator::new(config, "/tmp/beads".to_string())
}

fn ready(id: &str, now: u64) -> WorkerMessageEvent {
    WorkerMessageEvent { worker_id: id.to_string(), message: WorkerMessage::ready_at(id.to_string(), now) }
}

#[test]
fn test_orchestrator_creation() {
    let o = orchestrator(10);
    assert_eq!(o.workers().count(), 0);
    assert!(o.tasks().is_empty());
    assert_eq!(o.config().max_workers, 10);
}

#[test]
fn test_add_task() {
    let mut o = orchestrator(10);
    o.add_task(Task::new_at("t1".to_string(), 1, "Task".to_string(), 5));
    assert_eq!(o.tasks().len(), 1);
    assert_eq!(o.stats().queued_tasks, 1);
}

#[test]
fn test_ready_gets_task_or_wait() {
    let mut o = orchestrator(10);
    let id = o.accept_worker(1_000).unwrap();
    assert_eq!(id, "W1");
    o.add_task(Task::new_at("t1".to_string(), 2, "First".to_string(), 1));
    let reply = o.handle_worker_message(ready(&id, 2_000), 2_000).unwrap();
    assert_eq!(reply.worker_id, "W1");
    match reply.message {
        OrchestratorMessage::Task { issue_id, priority, title, timestamp_ms, .. } => {
            assert_eq!(issue_id, "t1");
            assert_eq!(priority, 2);
            assert_eq!(title, "First");
            assert_eq!(timestamp_ms, 2_000);
        }
        other => panic!("expected TASK, got {:?}", other),
    }
    assert!(o.in_progress().is_in_progress("t1"));
    assert_eq!(o.workers().get("W1").unwrap().state, WorkerState::Working);
    let done = WorkerMessageEvent {
        worker_id: id.clone(),
        message: WorkerMessage::done_at(id.clone(), "t1".to_string(), 500, 3_000),
    };
    let reply = o.handle_worker_message(done, 3_000).unwrap();
    assert!(matches!(reply.message, OrchestratorMessage::Wait { wait_seconds: 30, .. }));
    assert!(!o.in_progress().is_in_progress("t1"));
    assert_eq!(o.workers().get("W1").unwrap().tasks_completed, 1);
    assert_eq!(o.workers().get("W1").unwrap().state, WorkerState::Waiting);
    assert_eq!(o.stats().total_completed, 1);
}

#[test]
fn test_disconnect_releases_task() {
    let mut o = orchestrator(10);
    let id = o.accept_worker(0).unwrap();
    o.add_task(Task::new_at("t9".to_string(), 0, "T".to_string(), 1));
    o.handle_worker_message(ready(&id, 1_000), 1_000);
    assert!(o.in_progress().is_in_progress("t9"));
    let closed = o.handle_worker_message(ready(&id, 0), 2_000);
    assert!(closed.is_none());
    assert!(!o.in_progress().is_in_progress("t9"));
    assert!(o.workers().get(&id).is_none());
}

#[test]
fn test_connection_limit() {
    let mut o = orchestrator(1);
    assert!(o.accept_worker(0).is_some());
    assert!(o.accept_worker(0).is_none());
    assert_eq!(o.workers().count(), 1);
}

#[test]
fn test_assign_to_idle_and_shutdown() {
    let mut o = orchestrator(10);
    o.accept_worker(0);
    o.accept_worker(0);
    o.add_task(Task::new_at("b".to_string(), 3, "B".to_string(), 1));
    o.add_task(Task::new_at("a".to_string(), 1, "A".to_string(), 1));
    let sent = o.try_assign_tasks_to_idle_workers(5_000);
    let pairs: Vec<(String, String)> = sent
        .iter()
        .map(|s| match &s.message {
            OrchestratorMessage::Task { issue_id, .. } => (s.worker_id.clone(), issue_id.clone()),
            _ => panic!("expected TASK"),
        })
        .collect();
    assert_eq!(pairs, vec![("W1".to_string(), "a".to_string()), ("W2".to_string(), "b".to_string())]);
    let bye = o.shutdown_messages(9_000);
    assert_eq!(bye.len(), 2);
    assert!(matches!(bye[1].message, OrchestratorMessage::Shutdown { .. }));
}

#[test]
fn test_polled_tasks_are_queued_and_delivered() {
    let mut o = orchestrator(10);
    o.accept_worker(0);
    let out = o.queue_polled_tasks(
        vec![Task::new_at("x".to_string(), 0, "X".to_string(), 1), Task::new_at("y".to_string(), 4, "Y".to_string(), 1)],
        2_000,
    );
    assert_eq!(out.len(), 1);
    assert_eq!(o.tasks().len(), 1);
    assert!(o.in_progress().is_in_progress("x"));
}
