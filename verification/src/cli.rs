//! The command line: global options, subcommands, and the settings derived
//! from them.

use vstd::prelude::*;
use crate::text::push_str;

verus! {

/// Global options and the subcommand.
#[derive(Debug, Clone)]
pub struct Cli {
    /// Path to the beads directory.
    pub beads_dir: Option<String>,
    /// Path to the config file.
    pub config: Option<String>,
    /// Maximum number of concurrent workers.
    pub max_workers: Option<usize>,
    /// Verbose logging.
    pub verbose: bool,
    /// Debug logging.
    pub debug: bool,
    /// Log level (overrides verbose and debug).
    pub log_level: Option<String>,
    /// The subcommand.
    pub command: Commands,
}

/// The subcommands.
#[derive(Debug, Clone)]
pub enum Commands {
    /// Start the worker daemon.
    Start { daemon: bool, force: bool },
    /// Stop the worker daemon.
    Stop { force: bool, wait: bool },
    /// Restart the worker daemon.
    Restart { daemon: bool, force: bool },
    /// Show worker status.
    Status { json: bool, detailed: bool },
    /// Watch worker status live.
    Watch { interval: u64 },
    /// View worker logs.
    Logs { lines: usize, follow: bool, level: Option<String>, worker: Option<String> },
    /// Execute a command directly.
    Exec { command: Vec<String>, timeout: Option<u64>, dir: Option<String> },
    /// Show or modify the configuration.
    Config { action: ConfigAction },
    /// View performance metrics.
    Metrics { json: bool, detailed: bool, reset: bool, archive: bool },
}

/// Configuration subcommands.
#[derive(Debug, Clone)]
pub enum ConfigAction {
    /// Show the configuration.
    Show { json: bool },
    /// Get a value.
    Get { key: String },
    /// Set a value.
    SetValue { key: String, value: String },
    /// Reset to defaults.
    Reset { yes: bool },
}

/// Whether the options name a log level: an explicit level, `--debug` or `--verbose`.
pub open spec fn cli_names_level(cli: Cli) -> bool {
    cli.log_level is Some || cli.debug || cli.verbose
}

/// The log level the options select: an explicit level, else "debug" for `--debug`,
/// else "trace" for `--verbose`, else "info".
pub open spec fn log_level_of(cli: Cli) -> Seq<char> {
    match cli.log_level {
        Some(l) => l@,
        None => if cli.debug {
            "debug"@
        } else if cli.verbose {
            "trace"@
        } else {
            "info"@
        },
    }
}

impl Cli {
    /// The beads directory: the option's value, else ".beads".
    pub fn get_beads_dir(&self) -> (r: String)
        ensures
            r@ == match self.beads_dir {
                Some(d) => d@,
                None => ".beads"@,
            },
    {
        match &self.beads_dir {
            Some(d) => d.clone(),
            None => {
                let mut r = String::new();
                push_str(&mut r, ".beads");
                r
            },
        }
    }

    /// The config file: the option's value, else ".beads-workers.yaml".
    pub fn get_config_path(&self) -> (r: String)
        ensures
            r@ == match self.config {
                Some(c) => c@,
                None => ".beads-workers.yaml"@,
            },
    {
        match &self.config {
            Some(c) => c.clone(),
            None => {
                let mut r = String::new();
                push_str(&mut r, ".beads-workers.yaml");
                r
            },
        }
    }

    /// The log level the options select.
    pub fn get_log_level(&self) -> (r: String)
        ensures
            r@ == log_level_of(*self),
    {
        match &self.log_level {
            Some(l) => l.clone(),
            None => {
                let mut r = String::new();
                if self.debug {
                    push_str(&mut r, "debug");
                } else if self.verbose {
                    push_str(&mut r, "trace");
                } else {
                    push_str(&mut r, "info");
                }
                r
            },
        }
    }
}

} // verus!
