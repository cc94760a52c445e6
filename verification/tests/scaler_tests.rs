use beads_workers::scaler::{ScalingAction, ScalingError, WorkerScaler, WorkerScalingConfig};
use beads_workers::types::WorkerRegistry;

fn test_config() -> WorkerScalingConfig {
    WorkerScalingConfig {
        enabled: true,
        min_workers: 2,
        max_workers: 10,
        target_queue_size_per_worker: 3,
        idle_shutdown_timeout: 60,
        scale_check_interval: 10,
        spawn_backoff_initial: 1,
        spawn_backoff_max: 60,
        spawn_backoff_multiplier_bits: 2.0f64.to_bits(),
    }
}

/// What one failed spawn does to the backoff: the current backoff times the
/// multiplier, truncated to whole seconds, then capped by the scaler.
fn increase_backoff(scaler: &mut WorkerScaler, multiplier: f64) {
    let scaled = (scaler.current_backoff_secs() as f64 * multiplier) as u64;
    scaler.increase_backoff_to(scaled);
}

#[test]
fn test_scaler_creation() {
    let config = test_config();
    let scaler = WorkerScaler::new(config.clone(), "/tmp/test.sock".to_string());
    assert!(scaler.is_enabled());
    assert_eq!(scaler.spawned_count(), 0);
}

#[test]
fn test_calculate_target_workers() {
    let config = test_config();
    let scaler = WorkerScaler::new(config, "/tmp/test.sock".to_string());
    assert_eq!(scaler.calculate_target_workers(10, 2), 4);
    assert_eq!(scaler.calculate_target_workers(30, 2), 10);
    assert_eq!(scaler.calculate_target_workers(1, 1), 2);
}

#[test]
fn test_should_scale_up() {
    let config = test_config();
    let scaler = WorkerScaler::new(config, "/tmp/test.sock".to_string());
    let mut registry = WorkerRegistry::new();
    registry.register();
    registry.register();
    let action = scaler.should_scale(15, &registry, 10);
    match action {
        ScalingAction::ScaleUp { count } => {
            assert!(count > 0);
        }
        _ => panic!("Expected ScaleUp action"),
    }
}

#[test]
fn test_should_not_scale_above_max() {
    let config = test_config();
    let scaler = WorkerScaler::new(config, "/tmp/test.sock".to_string());
    let mut registry = WorkerRegistry::new();
    for _ in 0..10 {
        registry.register();
    }
    let action = scaler.should_scale(100, &registry, 10);
    assert_eq!(action, ScalingAction::NoChange);
}

#[test]
fn test_backoff_mechanism() {
    let config = test_config();
    let mut scaler = WorkerScaler::new(config, "/tmp/test.sock".to_string());
    assert_eq!(scaler.current_backoff_secs(), 1);
    increase_backoff(&mut scaler, 2.0);
    assert_eq!(scaler.current_backoff_secs(), 2);
    increase_backoff(&mut scaler, 2.0);
    assert_eq!(scaler.current_backoff_secs(), 4);
    scaler.reset_backoff();
    assert_eq!(scaler.current_backoff_secs(), 1);
}

#[test]
fn test_backoff_caps_at_max() {
    let config = test_config();
    let mut scaler = WorkerScaler::new(config, "/tmp/test.sock".to_string());
    for _ in 0..10 {
        increase_backoff(&mut scaler, 2.0);
    }
    assert_eq!(scaler.current_backoff_secs(), 60);
}

#[test]
fn test_disabled_scaling() {
    let mut config = test_config();
    config.enabled = false;
    let scaler = WorkerScaler::new(config, "/tmp/test.sock".to_string());
    let registry = WorkerRegistry::new();
    assert!(!scaler.is_enabled());
    assert_eq!(scaler.should_scale(100, &registry, 10), ScalingAction::NoChange);
}

#[test]
fn test_scale_up_exact_count_and_backoff_window() {
    let scaler_config = test_config();
    let mut scaler = WorkerScaler::new(scaler_config, "/tmp/s.sock".to_string());
    let mut registry = WorkerRegistry::new();
    registry.register_at(1000);
    registry.register_at(1000);
    // 10 queued, 3 per worker: 4 workers wanted, 2 running.
    assert_eq!(scaler.should_scale_at(10, &registry, 10, 2_000_000), ScalingAction::ScaleUp { count: 2 });
    // A target above the orchestrator's own maximum: no scale-up.
    assert_eq!(scaler.should_scale_at(10, &registry, 3, 2_000_000), ScalingAction::NoChange);
    scaler.finish_spawn_round_at(0, 2_000_000);
    // Within the one-second backoff: nothing; after it: scale up again.
    assert_eq!(scaler.should_scale_at(10, &registry, 10, 2_000_999), ScalingAction::NoChange);
    assert_eq!(scaler.should_scale_at(10, &registry, 10, 2_001_000), ScalingAction::ScaleUp { count: 2 });
}

#[test]
fn test_scale_down_idle_workers() {
    let scaler = WorkerScaler::new(test_config(), "/tmp/s.sock".to_string());
    let mut registry = WorkerRegistry::new();
    for _ in 0..4 {
        registry.register_at(1000);
    }
    registry.get_mut("W2").unwrap().update_last_seen_at(1950);
    // At 2000 s: W1, W3, W4 idle for 1000 s, W2 for 50 s; keep at least 2.
    let action = scaler.should_scale_at(0, &registry, 10, 2_000_000);
    assert_eq!(action, ScalingAction::ScaleDown { worker_ids: vec!["W1".to_string(), "W3".to_string()] });
    // Not idle long enough yet.
    assert_eq!(scaler.should_scale_at(0, &registry, 10, 1_050_000), ScalingAction::NoChange);
}

#[test]
fn test_spawn_tracking() {
    let mut scaler = WorkerScaler::new(test_config(), "/tmp/s.sock".to_string());
    scaler.record_spawned("spawned-1".to_string());
    scaler.record_spawned("spawned-2".to_string());
    scaler.record_spawned("spawned-1".to_string());
    assert_eq!(scaler.spawned_count(), 2);
    assert!(scaler.release_spawned("spawned-1"));
    assert!(!scaler.release_spawned("W7"));
    assert_eq!(scaler.spawned_count(), 1);
    increase_backoff(&mut scaler, 2.0);
    assert_eq!(scaler.current_backoff_secs(), 2);
    scaler.finish_spawn_round_at(1, 5);
    assert_eq!(scaler.current_backoff_secs(), 1);
    assert_eq!(scaler.socket_path(), "/tmp/s.sock");
}

#[test]
fn test_scaling_error_messages() {
    assert_eq!(
        ScalingError::SpawnFailed("no binary".to_string()).message(),
        "Failed to spawn worker: no binary"
    );
    assert_eq!(
        ScalingError::ShutdownFailed("kill refused".to_string()).message(),
        "Failed to shutdown worker: kill refused"
    );
}
