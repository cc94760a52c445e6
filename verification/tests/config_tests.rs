use beads_workers::cli::{Cli, Commands};
use beads_workers::config::{Config, EnvOverrides, LoggingConfig, RetryConfig, ONE_F64_BITS};

fn default_config() -> Config {
    Config::defaults(4)
}

fn cli_with(max_workers: Option<usize>, verbose: bool) -> Cli {
    Cli {
        beads_dir: None,
        config: None,
        max_workers,
        verbose,
        debug: false,
        log_level: None,
        command: Commands::Status { json: false, detailed: false },
    }
}

#[test]
fn test_default_config() {
    let config = default_config();
    assert!(config.max_workers > 0);
    assert_eq!(config.retry.max_retries, 3);
    assert_eq!(config.logging.level, "info");
}

#[test]
fn test_merge_with_cli() {
    let mut config = default_config();
    let cli = cli_with(Some(16), true);
    config.merge_with_cli(&cli, &EnvOverrides::none());
    assert_eq!(config.max_workers, 16);
    assert_eq!(config.logging.level, "trace");
}

#[test]
fn test_validate_success() {
    let config = default_config();
    assert!(config.validate().is_ok());
}

#[test]
fn test_validate_zero_workers() {
    let mut config = default_config();
    config.max_workers = 0;
    let result = config.validate();
    assert!(result.is_err());
    assert!(result.unwrap_err().message.contains("must be greater than 0"));
}

#[test]
fn test_validate_too_many_workers() {
    let mut config = default_config();
    config.max_workers = 2000;
    let result = config.validate();
    assert!(result.is_err());
    assert!(result.unwrap_err().message.contains("too large"));
}

#[test]
fn test_validate_invalid_log_level() {
    let mut config = default_config();
    config.logging.level = "invalid".to_string();
    let result = config.validate();
    assert!(result.is_err());
    assert!(result.unwrap_err().message.contains("Invalid log level"));
}

#[test]
fn test_validate_invalid_backoff() {
    let mut config = default_config();
    config.retry.max_backoff_secs = 1;
    config.retry.initial_backoff_secs = 10;
    let result = config.validate();
    assert!(result.is_err());
    assert!(result.unwrap_err().message.contains("max_backoff_secs"));
}

#[test]
fn test_validate_invalid_backoff_multiplier() {
    let mut config = default_config();
    config.retry.backoff_multiplier_bits = 0.5f64.to_bits();
    let result = config.validate();
    assert!(result.is_err());
    assert!(result.unwrap_err().message.contains("backoff_multiplier"));
}

#[test]
fn test_env_override() {
    let mut env = EnvOverrides::none();
    env.max_workers = Some("42".to_string());
    env.log_level = Some("debug".to_string());
    let mut config = default_config();
    config.apply_env_overrides(&env);
    assert_eq!(config.max_workers, 42);
    assert_eq!(config.logging.level, "debug");
}

#[test]
fn test_env_override_paths() {
    let mut env = EnvOverrides::none();
    env.db_path = Some("/custom/path/db".to_string());
    env.jsonl_path = Some("/custom/path/jsonl".to_string());
    let mut config = default_config();
    config.apply_env_overrides(&env);
    assert_eq!(config.db_path, Some("/custom/path/db".to_string()));
    assert_eq!(config.jsonl_path, Some("/custom/path/jsonl".to_string()));
}

#[test]
fn test_priority_cli_over_env() {
    let mut env = EnvOverrides::none();
    env.max_workers = Some("42".to_string());
    let mut config = default_config();
    let cli = cli_with(Some(16), false);
    config.merge_with_cli(&cli, &env);
    assert_eq!(config.max_workers, 16);
}

#[test]
fn test_validate_zero_initial_backoff() {
    let mut config = default_config();
    config.retry.initial_backoff_secs = 0;
    assert!(config.validate().is_err());
}

#[test]
fn test_validate_invalid_log_format() {
    let mut config = default_config();
    config.logging.format = "xml".to_string();
    assert!(config.validate().is_err());
}

#[test]
fn test_validate_zero_ipc_timeout() {
    let mut config = default_config();
    config.ipc.timeout_secs = 0;
    assert!(config.validate().is_err());
}

#[test]
fn test_validate_zero_poll_interval() {
    let mut config = default_config();
    config.worker.poll_interval_ms = 0;
    assert!(config.validate().is_err());
}

#[test]
fn test_validate_zero_queue_size() {
    let mut config = default_config();
    config.worker.queue_size = 0;
    assert!(config.validate().is_err());
}

#[test]
fn test_validate_zero_shutdown_timeout() {
    let mut config = default_config();
    config.worker.shutdown_timeout_secs = 0;
    assert!(config.validate().is_err());
}

#[test]
fn test_validate_prefetch_with_zero_count() {
    let mut config = default_config();
    config.worker.prefetch = true;
    config.worker.prefetch_count = 0;
    assert!(config.validate().is_err());
}

#[test]
fn test_get_db_path_default() {
    let config = default_config();
    assert_eq!(config.get_db_path("/test/beads"), "/test/beads/beads.db");
}

#[test]
fn test_get_db_path_override() {
    let mut config = default_config();
    config.db_path = Some("/custom/db.sqlite".to_string());
    assert_eq!(config.get_db_path("/test/beads"), "/custom/db.sqlite");
}

#[test]
fn test_get_jsonl_path_default() {
    let config = default_config();
    assert_eq!(config.get_jsonl_path("/test/beads"), "/test/beads/issues.jsonl");
}

#[test]
fn test_get_jsonl_path_override() {
    let mut config = default_config();
    config.jsonl_path = Some("/custom/issues.jsonl".to_string());
    assert_eq!(config.get_jsonl_path("/test/beads"), "/custom/issues.jsonl");
}

#[test]
fn test_get_socket_path_default() {
    let config = default_config();
    assert_eq!(config.get_socket_path("/test/beads"), "/test/beads/beads-workers.sock");
}

#[test]
fn test_get_socket_path_override() {
    let mut config = default_config();
    config.ipc.socket_path = Some("/custom/socket.sock".to_string());
    assert_eq!(config.get_socket_path("/test/beads"), "/custom/socket.sock");
}

#[test]
fn test_validate_all_log_levels() {
    let valid_levels = ["trace", "debug", "info", "warn", "error"];
    for level in valid_levels {
        let mut config = default_config();
        config.logging.level = level.to_string();
        assert!(config.validate().is_ok(), "Level {} should be valid", level);
    }
}

#[test]
fn test_validate_all_log_formats() {
    let valid_formats = ["pretty", "json", "compact"];
    for format in valid_formats {
        let mut config = default_config();
        config.logging.format = format.to_string();
        assert!(config.validate().is_ok(), "Format {} should be valid", format);
    }
}

#[test]
fn test_config_defaults_are_valid() {
    let config = default_config();
    assert!(config.validate().is_ok());

    let retry_config = RetryConfig::default();
    let mut config = default_config();
    config.retry = retry_config;
    assert!(config.validate().is_ok());

    let logging_config = LoggingConfig::default();
    let mut config = default_config();
    config.logging = logging_config;
    assert!(config.validate().is_ok());
}

#[test]
fn test_retry_config_boundary_values() {
    let mut config = default_config();
    config.retry.initial_backoff_secs = 1;
    config.retry.max_backoff_secs = 1;
    config.retry.backoff_multiplier_bits = 1.0f64.to_bits();
    assert!(config.validate().is_ok());
    config.retry.max_backoff_secs = 3600;
    assert!(config.validate().is_ok());
}

#[test]
fn test_worker_config_prefetch_disabled() {
    let mut config = default_config();
    config.worker.prefetch = false;
    config.worker.prefetch_count = 0;
    assert!(config.validate().is_ok());
}

#[test]
fn test_config_path_helpers() {
    let config = default_config();
    let db_path = config.get_db_path("/test/beads");
    let jsonl_path = config.get_jsonl_path("/test/beads");
    let socket_path = config.get_socket_path("/test/beads");
    assert!(db_path.starts_with("/test/beads"));
    assert!(jsonl_path.starts_with("/test/beads"));
    assert!(socket_path.starts_with("/test/beads"));
}

#[test]
fn test_env_override_precedence_and_bad_values() {
    let mut env = EnvOverrides::none();
    env.max_workers = Some("not-a-number".to_string());
    env.log_colors = Some("maybe".to_string());
    env.worker_queue_size = Some("+25".to_string());
    let mut config = default_config();
    config.logging.colors = false;
    config.apply_env_overrides(&env);
    assert_eq!(config.max_workers, 4);
    assert!(config.logging.colors);
    assert_eq!(config.worker.queue_size, 25);
}

#[test]
fn test_cli_beads_dir_fills_paths() {
    let mut config = default_config();
    let mut cli = cli_with(None, false);
    cli.beads_dir = Some("/proj/.beads".to_string());
    let mut env = EnvOverrides::none();
    env.max_workers = Some("7".to_string());
    env.db_path = Some("/env/db".to_string());
    config.merge_with_cli(&cli, &env);
    assert_eq!(config.max_workers, 7);
    assert_eq!(config.db_path, Some("/env/db".to_string()));
    assert_eq!(config.jsonl_path, Some("/proj/.beads/issues.jsonl".to_string()));
    assert_eq!(ONE_F64_BITS, 1.0f64.to_bits());
}

#[test]
fn test_validate_error_texts() {
    let mut config = default_config();
    config.retry.initial_backoff_secs = 10;
    config.retry.max_backoff_secs = 5;
    assert_eq!(
        config.validate().unwrap_err().message,
        "retry.max_backoff_secs (5) must be >= retry.initial_backoff_secs (10)"
    );
}

/// The configuration a file holding only `max_workers: 4` (and the settings a
/// test changes) stands for.
fn four_workers() -> Config {
    Config::defaults(4)
}

fn rejection(config: &Config) -> String {
    config.validate().unwrap_err().message
}

#[test]
fn test_config_validation_errors() {
    let mut config = Config::defaults(0);
    assert!(rejection(&config).contains("must be greater than 0"));
    config.max_workers = 2000;
    assert!(rejection(&config).contains("too large"));

    let mut config = four_workers();
    config.logging.level = "invalid_level".to_string();
    assert!(rejection(&config).contains("Invalid log level"));

    let mut config = four_workers();
    config.logging.format = "xml".to_string();
    assert!(rejection(&config).contains("Invalid log format"));

    let mut config = four_workers();
    config.retry.initial_backoff_secs = 10;
    config.retry.max_backoff_secs = 5;
    assert!(rejection(&config).contains("max_backoff_secs"));

    let mut config = four_workers();
    config.retry.backoff_multiplier_bits = 0.5f64.to_bits();
    assert!(rejection(&config).contains("backoff_multiplier"));
}

#[test]
fn test_config_all_valid_log_levels() {
    for level in ["trace", "debug", "info", "warn", "error"] {
        let mut config = four_workers();
        config.logging.level = level.to_string();
        assert!(config.validate().is_ok(), "Log level {} should be valid", level);
        assert_eq!(config.logging.level, level);
    }
}

#[test]
fn test_config_worker_validation() {
    let mut config = four_workers();
    config.worker.poll_interval_ms = 0;
    assert!(config.validate().is_err());

    let mut config = four_workers();
    config.worker.queue_size = 0;
    assert!(config.validate().is_err());

    let mut config = four_workers();
    config.worker.prefetch = true;
    config.worker.prefetch_count = 0;
    assert!(config.validate().is_err());

    let mut config = four_workers();
    config.worker.shutdown_timeout_secs = 0;
    assert!(config.validate().is_err());
}

#[test]
fn test_config_ipc_validation() {
    let mut config = four_workers();
    config.ipc.timeout_secs = 0;
    assert!(rejection(&config).contains("timeout_secs"));
}

#[test]
fn test_config_all_valid_log_formats() {
    for format in ["pretty", "json", "compact"] {
        let mut config = four_workers();
        config.logging.format = format.to_string();
        assert!(config.validate().is_ok(), "Log format {} should be valid", format);
        assert_eq!(config.logging.format, format);
    }
}

#[test]
fn test_validate_rejects_nan_multiplier() {
    let mut config = four_workers();
    config.retry.backoff_multiplier_bits = f64::NAN.to_bits();
    assert_eq!(rejection(&config), "retry.backoff_multiplier must be >= 1.0");
    config.retry.backoff_multiplier_bits = f64::INFINITY.to_bits();
    assert!(config.validate().is_ok());
    config.retry.backoff_multiplier_bits = (-2.0f64).to_bits();
    assert!(config.validate().is_err());
}

#[test]
fn test_merge_keeps_file_level_without_flag() {
    let mut config = four_workers();
    config.logging.level = "debug".to_string();
    config.merge_with_cli(&cli_with(None, false), &EnvOverrides::none());
    assert_eq!(config.logging.level, "debug");

    let mut env = EnvOverrides::none();
    env.log_level = Some("warn".to_string());
    config.merge_with_cli(&cli_with(None, false), &env);
    assert_eq!(config.logging.level, "warn");

    let mut cli = cli_with(None, false);
    cli.debug = true;
    config.merge_with_cli(&cli, &env);
    assert_eq!(config.logging.level, "debug");

    cli.log_level = Some("error".to_string());
    config.merge_with_cli(&cli, &env);
    assert_eq!(config.logging.level, "error");
}
