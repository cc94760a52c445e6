use beads_workers::ipc::{RetryConfig, CONNECT_TIMEOUT_MS, IPC_MAX_MESSAGE_SIZE, READ_TIMEOUT_MS};

#[test]
fn test_retry_config_default() {
    let config = RetryConfig::default();
    assert_eq!(config.max_attempts, 5);
    assert_eq!(config.initial_backoff_ms, 1000);
    assert_eq!(config.max_backoff_ms, 60_000);
    assert_eq!(f64::from_bits(config.multiplier_bits), 2.0);
}

#[test]
fn test_ipc_limits() {
    assert_eq!(IPC_MAX_MESSAGE_SIZE, 1_048_576);
    assert_eq!(CONNECT_TIMEOUT_MS, 5_000);
    assert_eq!(READ_TIMEOUT_MS, 30_000);
}
