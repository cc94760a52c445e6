use beads_workers::types::{
    OrchestratorConfig, OrchestratorMessage, ShutdownReason, Task, TaskQueue, WorkerInfo, WorkerMessage,
    WorkerRegistry, WorkerState,
};

#[test]
fn test_worker_message_ready() {
    let msg = WorkerMessage::ready("W1".to_string());
    assert_eq!(msg.worker_id(), "W1");
    assert!(msg.timestamp() > 0);
}

#[test]
fn test_worker_message_done() {
    let msg = WorkerMessage::done("W1".to_string(), "issue-123".to_string(), 5000);
    assert_eq!(msg.worker_id(), "W1");
    match msg {
        WorkerMessage::Done { issue_id, duration_ms, .. } => {
            assert_eq!(issue_id, "issue-123");
            assert_eq!(duration_ms, 5000);
        }
        _ => panic!("Expected Done variant"),
    }
}

#[test]
fn test_orchestrator_message_task() {
    let msg = OrchestratorMessage::task("W1".to_string(), "issue-123".to_string(), 2, "Test task".to_string());
    assert_eq!(msg.worker_id(), "W1");
    match msg {
        OrchestratorMessage::Task { issue_id, priority, title, .. } => {
            assert_eq!(issue_id, "issue-123");
            assert_eq!(priority, 2);
            assert_eq!(title, "Test task");
        }
        _ => panic!("Expected Task variant"),
    }
}

#[test]
fn test_task_queue_priority() {
    let mut queue = TaskQueue::new();

    queue.push(Task::new("low".to_string(), 3, "Low priority".to_string()));
    queue.push(Task::new("high".to_string(), 0, "High priority".to_string()));
    queue.push(Task::new("medium".to_string(), 1, "Medium priority".to_string()));

    assert_eq!(queue.len(), 3);

    let task1 = queue.pop().unwrap();
    assert_eq!(task1.issue_id, "high");

    let task2 = queue.pop().unwrap();
    assert_eq!(task2.issue_id, "medium");

    let task3 = queue.pop().unwrap();
    assert_eq!(task3.issue_id, "low");

    assert!(queue.is_empty());
}

#[test]
fn test_worker_registry() {
    let mut registry = WorkerRegistry::new();

    let w1 = registry.register();
    let w2 = registry.register();

    assert_eq!(w1, "W1");
    assert_eq!(w2, "W2");
    assert_eq!(registry.count(), 2);

    let info = registry.get(&w1).unwrap();
    assert_eq!(info.state, WorkerState::Idle);

    registry.unregister(&w1);
    assert_eq!(registry.count(), 1);
}

#[test]
fn test_worker_info_lifecycle() {
    let mut info = WorkerInfo::new("W1".to_string());

    assert_eq!(info.state, WorkerState::Idle);
    assert_eq!(info.tasks_completed, 0);

    info.assign_task("task-1".to_string());
    assert_eq!(info.state, WorkerState::Working);
    assert_eq!(info.current_task, Some("task-1".to_string()));

    info.complete_task();
    assert_eq!(info.state, WorkerState::Idle);
    assert_eq!(info.current_task, None);
    assert_eq!(info.tasks_completed, 1);

    info.assign_task("task-2".to_string());
    info.fail_task();
    assert_eq!(info.state, WorkerState::Idle);
    assert_eq!(info.tasks_failed, 1);
}

#[test]
fn test_orchestrator_config_default() {
    let config = OrchestratorConfig::for_process(12345);
    assert!(config.socket_path.contains("/tmp/beads-workers-"));
    assert_eq!(config.max_workers, 10);
    assert_eq!(config.default_wait_seconds, 30);
}

#[test]
fn test_queue_fifo_within_priority() {
    let mut queue = TaskQueue::new();
    queue.push(Task::new_at("a".to_string(), 2, "A".to_string(), 1));
    queue.push(Task::new_at("b".to_string(), 2, "B".to_string(), 2));
    queue.push(Task::new_at("c".to_string(), 0, "C".to_string(), 3));
    queue.push(Task::new_at("d".to_string(), 9, "D".to_string(), 4));
    queue.push(Task::new_at("e".to_string(), 2, "E".to_string(), 5));
    assert_eq!(queue.tasks_at_priority(2).len(), 3);
    assert_eq!(queue.tasks_at_priority(7).len(), 1);
    let order: Vec<String> = std::iter::from_fn(|| queue.pop()).map(|t| t.issue_id).collect();
    assert_eq!(order, vec!["c", "a", "b", "e", "d"]);
    assert!(queue.pop().is_none());
}

#[test]
fn test_registry_ids_not_reused() {
    let mut registry = WorkerRegistry::new();
    let w1 = registry.register_at(100);
    registry.unregister(&w1);
    let w2 = registry.register_at(200);
    assert_eq!(w1, "W1");
    assert_eq!(w2, "W2");
    assert!(registry.get("W1").is_none());
    assert_eq!(registry.get("W2").unwrap().registered_at, 200);
    assert!(registry.unregister("W9").is_none());
}

#[test]
fn test_registry_states() {
    let mut registry = WorkerRegistry::new();
    let a = registry.register_at(1);
    let _b = registry.register_at(1);
    registry.get_mut(&a).unwrap().assign_task_at("t".to_string(), 5);
    assert_eq!(registry.working_workers().len(), 1);
    assert_eq!(registry.idle_workers().len(), 1);
    assert_eq!(registry.idle_workers()[0].worker_id, "W2");
    assert_eq!(registry.all().len(), 2);
}

#[test]
fn test_message_constructors_at() {
    let m = WorkerMessage::failed_at("W3".to_string(), "i".to_string(), "boom".to_string(), 7, 1234);
    assert_eq!(m.timestamp(), 1234);
    assert_eq!(m.worker_id(), "W3");
    let o = OrchestratorMessage::shutdown_at("W3".to_string(), ShutdownReason::IdleTimeout, 99);
    assert_eq!(o.timestamp(), 99);
    let w = OrchestratorMessage::wait_at("W4".to_string(), 30, 5);
    assert_eq!(w.worker_id(), "W4");
}

#[test]
fn test_worker_info_timestamps() {
    let mut info = WorkerInfo::new_at("W1".to_string(), 10);
    info.assign_task_at("x".to_string(), 20);
    assert_eq!(info.last_seen, 20);
    info.complete_task_at(30);
    assert_eq!(info.last_seen, 30);
    assert_eq!(info.registered_at, 10);
}
