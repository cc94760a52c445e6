use beads_workers::cli::{Cli, Commands};

fn status_cli(verbose: bool, debug: bool) -> Cli {
    Cli {
        beads_dir: None,
        config: None,
        max_workers: None,
        verbose,
        debug,
        log_level: None,
        command: Commands::Status { json: false, detailed: false },
    }
}

#[test]
fn test_cli_parse() {
    let cli = status_cli(false, false);
    assert!(matches!(cli.command, Commands::Status { .. }));
}

#[test]
fn test_log_level_priority() {
    let cli = status_cli(false, false);
    assert_eq!(cli.get_log_level(), "info");

    let cli = status_cli(true, false);
    assert_eq!(cli.get_log_level(), "trace");

    let cli = status_cli(false, true);
    assert_eq!(cli.get_log_level(), "debug");
}

#[test]
fn test_beads_dir_default() {
    let cli = status_cli(false, false);
    assert_eq!(cli.get_beads_dir(), ".beads");
}

#[test]
fn test_config_path_default() {
    let cli = status_cli(false, false);
    assert_eq!(cli.get_config_path(), ".beads-workers.yaml");
}

#[test]
fn test_explicit_log_level_wins() {
    let mut cli = status_cli(true, true);
    assert_eq!(cli.get_log_level(), "debug");
    cli.log_level = Some("warn".to_string());
    assert_eq!(cli.get_log_level(), "warn");
    cli.beads_dir = Some("/p/.beads".to_string());
    cli.config = Some("/p/c.yaml".to_string());
    assert_eq!(cli.get_beads_dir(), "/p/.beads");
    assert_eq!(cli.get_config_path(), "/p/c.yaml");
}
