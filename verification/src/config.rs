//! The daemon's configuration: defaults, the rules a valid configuration
//! meets, overrides from the environment and the command line (CLI over
//! environment over file over defaults), and the paths derived from it.
//!
//! The backoff multiplier, a 64-bit float in the configuration file, is held
//! here as its IEEE-754 bit pattern.

use vstd::prelude::*;
use crate::cli::{Cli, cli_names_level, log_level_of};
use crate::text::{
    decimal, lemma_parse_decimal, parse_bool, parse_unsigned, parse_unsigned_exec, path_join, path_join_exec, push_decimal,
    push_str, str_eq,
};

verus! {

/// The bit pattern of the float 2.0.
pub const TWO_F64_BITS: u64 = 0x4000_0000_0000_0000;

/// The bit pattern of the float 1.0.
pub const ONE_F64_BITS: u64 = 0x3FF0_0000_0000_0000;

/// The float with bit pattern `bits` is not at least 1.0: it is NaN, or negative
/// (or -0.0), or a non-negative float whose pattern is below that of 1.0.
pub open spec fn f64_bits_not_at_least_one(bits: u64) -> bool {
    let negative = bits / 0x8000_0000_0000_0000 == 1;
    let exponent = (bits / 0x10_0000_0000_0000) % 2048;
    let mantissa = bits % 0x10_0000_0000_0000;
    let nan = exponent == 2047 && mantissa != 0;
    nan || negative || bits < ONE_F64_BITS
}

/// Whether the float with bit pattern `bits` is not at least 1.0.
pub fn f64_bits_not_at_least_one_exec(bits: u64) -> (r: bool)
    ensures
        r == f64_bits_not_at_least_one(bits),
{
    let negative = bits / 0x8000_0000_0000_0000 == 1;
    let exponent = (bits / 0x10_0000_0000_0000) % 2048;
    let mantissa = bits % 0x10_0000_0000_0000;
    let nan = exponent == 2047 && mantissa != 0;
    nan || negative || bits < ONE_F64_BITS
}

/// Retry settings.
#[derive(Debug, Clone)]
pub struct RetryConfig {
    /// Retries of a failed task.
    pub max_retries: usize,
    /// First backoff, in seconds.
    pub initial_backoff_secs: u64,
    /// Largest backoff, in seconds.
    pub max_backoff_secs: u64,
    /// Backoff multiplier: the bit pattern of a 64-bit float.
    pub backoff_multiplier_bits: u64,
}

impl Default for RetryConfig {
    /// 3 retries, backoff from 1 s up to 60 s, doubling.
    fn default() -> (c: Self)
        ensures
            c.max_retries == 3,
            c.initial_backoff_secs == 1,
            c.max_backoff_secs == 60,
            c.backoff_multiplier_bits == TWO_F64_BITS,
    {
        RetryConfig { max_retries: 3, initial_backoff_secs: 1, max_backoff_secs: 60, backoff_multiplier_bits: TWO_F64_BITS }
    }
}

/// Logging settings.
#[derive(Debug, Clone)]
pub struct LoggingConfig {
    /// Level: trace, debug, info, warn or error.
    pub level: String,
    /// Format: pretty, json or compact.
    pub format: String,
    /// Log file.
    pub file: Option<String>,
    /// ANSI colors.
    pub colors: bool,
}

impl Default for LoggingConfig {
    /// Level "info", format "pretty", no file, colors on.
    fn default() -> (c: Self)
        ensures
            c.level@ == "info"@,
            c.format@ == "pretty"@,
            c.file is None,
            c.colors,
    {
        let mut level = String::new();
        push_str(&mut level, "info");
        let mut format = String::new();
        push_str(&mut format, "pretty");
        LoggingConfig { level, format, file: None, colors: true }
    }
}

/// IPC settings.
#[derive(Debug, Clone)]
pub struct IpcConfig {
    /// Socket path.
    pub socket_path: Option<String>,
    /// Whether the IPC server is enabled.
    pub enabled: bool,
    /// Connection timeout in seconds.
    pub timeout_secs: u64,
}

impl Default for IpcConfig {
    /// No socket path, enabled, 30 s timeout.
    fn default() -> (c: Self)
        ensures
            c.socket_path is None,
            c.enabled,
            c.timeout_secs == 30,
    {
        IpcConfig { socket_path: None, enabled: true, timeout_secs: 30 }
    }
}

/// Worker settings.
#[derive(Debug, Clone)]
pub struct WorkerConfig {
    /// Poll interval in milliseconds.
    pub poll_interval_ms: u64,
    /// Largest task queue per worker.
    pub queue_size: usize,
    /// Whether tasks are prefetched.
    pub prefetch: bool,
    /// How many tasks are prefetched.
    pub prefetch_count: usize,
    /// Graceful shutdown timeout in seconds.
    pub shutdown_timeout_secs: u64,
}

impl Default for WorkerConfig {
    /// 100 ms polls, queue of 1000, prefetching 10, 30 s shutdown timeout.
    fn default() -> (c: Self)
        ensures
            c.poll_interval_ms == 100,
            c.queue_size == 1000,
            c.prefetch,
            c.prefetch_count == 10,
            c.shutdown_timeout_secs == 30,
    {
        WorkerConfig { poll_interval_ms: 100, queue_size: 1000, prefetch: true, prefetch_count: 10, shutdown_timeout_secs: 30 }
    }
}

/// The whole configuration.
#[derive(Debug, Clone)]
pub struct Config {
    /// Maximum number of concurrent workers.
    pub max_workers: usize,
    /// Beads database path.
    pub db_path: Option<String>,
    /// Beads JSONL path.
    pub jsonl_path: Option<String>,
    /// Default task timeout in seconds.
    pub default_timeout: Option<u64>,
    /// Retry settings.
    pub retry: RetryConfig,
    /// Logging settings.
    pub logging: LoggingConfig,
    /// IPC settings.
    pub ipc: IpcConfig,
    /// Worker settings.
    pub worker: WorkerConfig,
}

/// An error of configuration handling, with its message.
#[derive(Debug, Clone)]
pub struct ConfigError {
    pub message: String,
}

/// The text of a rejected log level.
pub open spec fn invalid_level_text(level: Seq<char>) -> Seq<char> {
    "Invalid log level: "@ + level + ". Valid levels: [\"trace\", \"debug\", \"info\", \"warn\", \"error\"]"@
}

/// The text of a rejected log format.
pub open spec fn invalid_format_text(format: Seq<char>) -> Seq<char> {
    "Invalid log format: "@ + format + ". Valid formats: [\"pretty\", \"json\", \"compact\"]"@
}

/// The accepted log levels.
pub open spec fn is_log_level(s: Seq<char>) -> bool {
    s == "trace"@ || s == "debug"@ || s == "info"@ || s == "warn"@ || s == "error"@
}

/// The accepted log formats.
pub open spec fn is_log_format(s: Seq<char>) -> bool {
    s == "pretty"@ || s == "json"@ || s == "compact"@
}

/// The rules a valid configuration meets, checked in this order; the first that fails
/// gives the error message.
pub open spec fn config_check(c: Config) -> Result<(), Seq<char>> {
    if c.max_workers == 0 {
        Err("max_workers must be greater than 0"@)
    } else if c.max_workers > 1024 {
        Err("max_workers is too large (max: 1024, got: "@ + decimal(c.max_workers as nat) + ")"@)
    } else if c.retry.initial_backoff_secs == 0 {
        Err("retry.initial_backoff_secs must be greater than 0"@)
    } else if c.retry.max_backoff_secs < c.retry.initial_backoff_secs {
        Err("retry.max_backoff_secs ("@ + decimal(c.retry.max_backoff_secs as nat)
            + ") must be >= retry.initial_backoff_secs ("@ + decimal(c.retry.initial_backoff_secs as nat) + ")"@)
    } else if f64_bits_not_at_least_one(c.retry.backoff_multiplier_bits) {
        Err("retry.backoff_multiplier must be >= 1.0"@)
    } else if !is_log_level(c.logging.level@) {
        Err(invalid_level_text(c.logging.level@))
    } else if !is_log_format(c.logging.format@) {
        Err(invalid_format_text(c.logging.format@))
    } else if c.ipc.timeout_secs == 0 {
        Err("ipc.timeout_secs must be greater than 0"@)
    } else if c.worker.poll_interval_ms == 0 {
        Err("worker.poll_interval_ms must be greater than 0"@)
    } else if c.worker.queue_size == 0 {
        Err("worker.queue_size must be greater than 0"@)
    } else if c.worker.prefetch && c.worker.prefetch_count == 0 {
        Err("worker.prefetch_count must be greater than 0 when prefetch is enabled"@)
    } else if c.worker.shutdown_timeout_secs == 0 {
        Err("worker.shutdown_timeout_secs must be greater than 0"@)
    } else {
        Ok(())
    }
}

/// `r` is the outcome `check` prescribes.
pub open spec fn is_config_outcome(r: Result<(), ConfigError>, check: Result<(), Seq<char>>) -> bool {
    match (r, check) {
        (Ok(()), Ok(())) => true,
        (Err(e), Err(m)) => e.message@ == m,
        _ => false,
    }
}

fn config_error(text: &str) -> (r: Result<(), ConfigError>)
    ensures
        is_config_outcome(r, Err(text@)),
{
    let mut message = String::new();
    push_str(&mut message, text);
    Err(ConfigError { message })
}

/// Environment overrides: the values of the `BEADS_*` variables that are set.
#[derive(Debug, Clone)]
pub struct EnvOverrides {
    pub max_workers: Option<String>,
    pub db_path: Option<String>,
    pub jsonl_path: Option<String>,
    pub default_timeout: Option<String>,
    pub max_retries: Option<String>,
    pub initial_backoff_secs: Option<String>,
    pub max_backoff_secs: Option<String>,
    /// The bit pattern of `BEADS_BACKOFF_MULTIPLIER`, if it is set and reads as a float.
    pub backoff_multiplier_bits: Option<u64>,
    pub log_level: Option<String>,
    pub log_format: Option<String>,
    pub log_file: Option<String>,
    pub log_colors: Option<String>,
    pub ipc_socket_path: Option<String>,
    pub ipc_enabled: Option<String>,
    pub ipc_timeout_secs: Option<String>,
    pub worker_poll_interval_ms: Option<String>,
    pub worker_queue_size: Option<String>,
    pub worker_prefetch: Option<String>,
    pub worker_prefetch_count: Option<String>,
    pub worker_shutdown_timeout_secs: Option<String>,
}

impl EnvOverrides {
    /// No variable set.
    pub fn none() -> (e: Self)
        ensures
            e.max_workers is None && e.db_path is None && e.jsonl_path is None && e.default_timeout is None,
            e.max_retries is None && e.initial_backoff_secs is None && e.max_backoff_secs is None,
            e.backoff_multiplier_bits is None,
            e.log_level is None && e.log_format is None && e.log_file is None && e.log_colors is None,
            e.ipc_socket_path is None && e.ipc_enabled is None && e.ipc_timeout_secs is None,
            e.worker_poll_interval_ms is None && e.worker_queue_size is None && e.worker_prefetch is None,
            e.worker_prefetch_count is None && e.worker_shutdown_timeout_secs is None,
    {
        EnvOverrides {
            max_workers: None,
            db_path: None,
            jsonl_path: None,
            default_timeout: None,
            max_retries: None,
            initial_backoff_secs: None,
            max_backoff_secs: None,
            backoff_multiplier_bits: None,
            log_level: None,
            log_format: None,
            log_file: None,
            log_colors: None,
            ipc_socket_path: None,
            ipc_enabled: None,
            ipc_timeout_secs: None,
            worker_poll_interval_ms: None,
            worker_queue_size: None,
            worker_prefetch: None,
            worker_prefetch_count: None,
            worker_shutdown_timeout_secs: None,
        }
    }
}

/// A numeric override: the variable's value if it is set and reads as a number no larger
/// than `max`, else the current value.
pub open spec fn num_override(v: Option<String>, current: nat, max: nat) -> nat {
    match v {
        Some(s) => match parse_unsigned(s@, max) {
            Some(n) => n,
            None => current,
        },
        None => current,
    }
}

/// A flag override: the variable's value read as a boolean, `true` if it does not read as
/// one; the current value if unset.
pub open spec fn flag_override(v: Option<String>, current: bool) -> bool {
    match v {
        Some(s) => match parse_bool(s@) {
            Some(b) => b,
            None => true,
        },
        None => current,
    }
}

/// A text override: the variable's value if set, else the current value.
pub open spec fn text_override(v: Option<String>, current: Seq<char>) -> Seq<char> {
    match v {
        Some(s) => s@,
        None => current,
    }
}

/// An optional path override: the variable's value if set, else the current value.
pub open spec fn path_override(v: Option<String>, current: Option<Seq<char>>) -> Option<Seq<char>> {
    match v {
        Some(s) => Some(s@),
        None => current,
    }
}

/// The view of an optional string.
pub open spec fn opt_view(o: Option<String>) -> Option<Seq<char>> {
    match o {
        Some(s) => Some(s@),
        None => None,
    }
}

fn override_usize(v: &Option<String>, current: usize) -> (r: usize)
    ensures
        r == num_override(*v, current as nat, usize::MAX as nat),
{
    match v {
        Some(s) => match parse_unsigned_exec(s.as_str(), usize::MAX as u64) {
            Some(n) => n as usize,
            None => current,
        },
        None => current,
    }
}

fn override_u64(v: &Option<String>, current: u64) -> (r: u64)
    ensures
        r == num_override(*v, current as nat, u64::MAX as nat),
{
    match v {
        Some(s) => match parse_unsigned_exec(s.as_str(), u64::MAX) {
            Some(n) => n,
            None => current,
        },
        None => current,
    }
}

fn override_flag(v: &Option<String>, current: bool) -> (r: bool)
    ensures
        r == flag_override(*v, current),
{
    match v {
        Some(s) => {
            if str_eq(s.as_str(), "true") {
                true
            } else if str_eq(s.as_str(), "false") {
                false
            } else {
                true
            }
        },
        None => current,
    }
}

fn override_text(v: &Option<String>, current: String) -> (r: String)
    ensures
        r@ == text_override(*v, current@),
{
    match v {
        Some(s) => s.clone(),
        None => current,
    }
}

fn override_path(v: &Option<String>, current: Option<String>) -> (r: Option<String>)
    ensures
        opt_view(r) == path_override(*v, opt_view(current)),
{
    match v {
        Some(s) => Some(s.clone()),
        None => current,
    }
}

/// The settings other than the worker count, the database and JSONL paths and the log
/// level after the
/// environment's overrides are applied to `old`.
pub open spec fn env_applied_rest(new: Config, old: Config, env: EnvOverrides) -> bool {
    &&& new.default_timeout == match env.default_timeout {
        Some(s) => match parse_unsigned(s@, u64::MAX as nat) {
            Some(n) => Some(n as u64),
            None => old.default_timeout,
        },
        None => old.default_timeout,
    }
    &&& new.retry.max_retries == num_override(env.max_retries, old.retry.max_retries as nat, usize::MAX as nat)
    &&& new.retry.initial_backoff_secs == num_override(env.initial_backoff_secs, old.retry.initial_backoff_secs as nat, u64::MAX as nat)
    &&& new.retry.max_backoff_secs == num_override(env.max_backoff_secs, old.retry.max_backoff_secs as nat, u64::MAX as nat)
    &&& new.retry.backoff_multiplier_bits == match env.backoff_multiplier_bits {
        Some(b) => b,
        None => old.retry.backoff_multiplier_bits,
    }
    &&& new.logging.format@ == text_override(env.log_format, old.logging.format@)
    &&& opt_view(new.logging.file) == path_override(env.log_file, opt_view(old.logging.file))
    &&& new.logging.colors == flag_override(env.log_colors, old.logging.colors)
    &&& opt_view(new.ipc.socket_path) == path_override(env.ipc_socket_path, opt_view(old.ipc.socket_path))
    &&& new.ipc.enabled == flag_override(env.ipc_enabled, old.ipc.enabled)
    &&& new.ipc.timeout_secs == num_override(env.ipc_timeout_secs, old.ipc.timeout_secs as nat, u64::MAX as nat)
    &&& new.worker.poll_interval_ms == num_override(env.worker_poll_interval_ms, old.worker.poll_interval_ms as nat, u64::MAX as nat)
    &&& new.worker.queue_size == num_override(env.worker_queue_size, old.worker.queue_size as nat, usize::MAX as nat)
    &&& new.worker.prefetch == flag_override(env.worker_prefetch, old.worker.prefetch)
    &&& new.worker.prefetch_count == num_override(env.worker_prefetch_count, old.worker.prefetch_count as nat, usize::MAX as nat)
    &&& new.worker.shutdown_timeout_secs == num_override(env.worker_shutdown_timeout_secs, old.worker.shutdown_timeout_secs as nat, u64::MAX as nat)
}

/// A numeric variable `v` as it should act on a setting (`old` before, `new`
/// after): written as the decimal number `n` (at most `max`), it sets the setting
/// to `n`; unset, it leaves the setting as it was.
pub open spec fn decimal_sets(v: Option<String>, new: nat, old: nat, max: nat) -> bool {
    match v {
        Some(s) => forall|n: nat| n <= max && s@ == #[trigger] decimal(n) ==> new == n,
        None => new == old,
    }
}

/// What the numeric variables of the environment do to a configuration (`old`
/// before, `new` after): each one written as a decimal number in range sets its
/// setting to that number, and each one unset leaves its setting alone.
pub open spec fn env_numbers_set(new: Config, old: Config, env: EnvOverrides) -> bool {
    &&& decimal_sets(env.max_workers, new.max_workers as nat, old.max_workers as nat, usize::MAX as nat)
    &&& match env.default_timeout {
        Some(s) => forall|n: nat| n <= u64::MAX && s@ == #[trigger] decimal(n) ==> new.default_timeout == Some(n as u64),
        None => new.default_timeout == old.default_timeout,
    }
    &&& decimal_sets(env.max_retries, new.retry.max_retries as nat, old.retry.max_retries as nat, usize::MAX as nat)
    &&& decimal_sets(env.initial_backoff_secs, new.retry.initial_backoff_secs as nat, old.retry.initial_backoff_secs as nat, u64::MAX as nat)
    &&& decimal_sets(env.max_backoff_secs, new.retry.max_backoff_secs as nat, old.retry.max_backoff_secs as nat, u64::MAX as nat)
    &&& decimal_sets(env.ipc_timeout_secs, new.ipc.timeout_secs as nat, old.ipc.timeout_secs as nat, u64::MAX as nat)
    &&& decimal_sets(env.worker_poll_interval_ms, new.worker.poll_interval_ms as nat, old.worker.poll_interval_ms as nat, u64::MAX as nat)
    &&& decimal_sets(env.worker_queue_size, new.worker.queue_size as nat, old.worker.queue_size as nat, usize::MAX as nat)
    &&& decimal_sets(env.worker_prefetch_count, new.worker.prefetch_count as nat, old.worker.prefetch_count as nat, usize::MAX as nat)
    &&& decimal_sets(env.worker_shutdown_timeout_secs, new.worker.shutdown_timeout_secs as nat, old.worker.shutdown_timeout_secs as nat, u64::MAX as nat)
}

/// A number override takes a variable written in decimal.
proof fn lemma_num_override_decimal(v: Option<String>, current: nat, max: nat)
    ensures
        decimal_sets(v, num_override(v, current, max), current, max),
{
    match v {
        Some(s) => {
            assert forall|n: nat| n <= max && s@ == #[trigger] decimal(n) implies num_override(v, current, max) == n by {
                lemma_parse_decimal(n, max);
            }
        },
        None => {},
    }
}

/// The environment's numeric variables, written in decimal, set their settings.
proof fn lemma_env_numbers(new: Config, old: Config, env: EnvOverrides)
    requires
        new.max_workers == num_override(env.max_workers, old.max_workers as nat, usize::MAX as nat),
        env_applied_rest(new, old, env),
    ensures
        env_numbers_set(new, old, env),
{
    lemma_num_override_decimal(env.max_workers, old.max_workers as nat, usize::MAX as nat);
    lemma_num_override_decimal(env.max_retries, old.retry.max_retries as nat, usize::MAX as nat);
    lemma_num_override_decimal(env.initial_backoff_secs, old.retry.initial_backoff_secs as nat, u64::MAX as nat);
    lemma_num_override_decimal(env.max_backoff_secs, old.retry.max_backoff_secs as nat, u64::MAX as nat);
    lemma_num_override_decimal(env.ipc_timeout_secs, old.ipc.timeout_secs as nat, u64::MAX as nat);
    lemma_num_override_decimal(env.worker_poll_interval_ms, old.worker.poll_interval_ms as nat, u64::MAX as nat);
    lemma_num_override_decimal(env.worker_queue_size, old.worker.queue_size as nat, usize::MAX as nat);
    lemma_num_override_decimal(env.worker_prefetch_count, old.worker.prefetch_count as nat, usize::MAX as nat);
    lemma_num_override_decimal(env.worker_shutdown_timeout_secs, old.worker.shutdown_timeout_secs as nat, u64::MAX as nat);
    match env.default_timeout {
        Some(s) => {
            assert forall|n: nat| n <= u64::MAX && s@ == #[trigger] decimal(n) implies new.default_timeout == Some(n as u64) by {
                lemma_parse_decimal(n, u64::MAX as nat);
            }
        },
        None => {},
    }
}

impl Config {
    /// The defaults, with `max_workers` workers (the number of CPUs): 300 s task timeout,
    /// no paths, and the default retry, logging, IPC and worker settings.
    pub fn defaults(max_workers: usize) -> (c: Self)
        ensures
            c.max_workers == max_workers,
            c.db_path is None,
            c.jsonl_path is None,
            c.default_timeout == Some(300u64),
            c.retry.max_retries == 3,
            c.retry.initial_backoff_secs == 1,
            c.retry.max_backoff_secs == 60,
            c.retry.backoff_multiplier_bits == TWO_F64_BITS,
            c.logging.level@ == "info"@,
            c.logging.format@ == "pretty"@,
            c.logging.file is None,
            c.logging.colors,
            c.ipc.socket_path is None,
            c.ipc.enabled,
            c.ipc.timeout_secs == 30,
            c.worker.poll_interval_ms == 100,
            c.worker.queue_size == 1000,
            c.worker.prefetch,
            c.worker.prefetch_count == 10,
            c.worker.shutdown_timeout_secs == 30,
    {
        Config {
            max_workers,
            db_path: None,
            jsonl_path: None,
            default_timeout: Some(300),
            retry: RetryConfig::default(),
            logging: LoggingConfig::default(),
            ipc: IpcConfig::default(),
            worker: WorkerConfig::default(),
        }
    }

    /// Checks the configuration against the rules, reporting the first that fails.
    pub fn validate(&self) -> (r: Result<(), ConfigError>)
        ensures
            is_config_outcome(r, config_check(*self)),
    {
        if self.max_workers == 0 {
            return config_error("max_workers must be greater than 0");
        }
        if self.max_workers > 1024 {
            let mut m = String::new();
            push_str(&mut m, "max_workers is too large (max: 1024, got: ");
            push_decimal(&mut m, self.max_workers as u64);
            push_str(&mut m, ")");
            return Err(ConfigError { message: m });
        }
        if self.retry.initial_backoff_secs == 0 {
            return config_error("retry.initial_backoff_secs must be greater than 0");
        }
        if self.retry.max_backoff_secs < self.retry.initial_backoff_secs {
            let mut m = String::new();
            push_str(&mut m, "retry.max_backoff_secs (");
            push_decimal(&mut m, self.retry.max_backoff_secs);
            push_str(&mut m, ") must be >= retry.initial_backoff_secs (");
            push_decimal(&mut m, self.retry.initial_backoff_secs);
            push_str(&mut m, ")");
            return Err(ConfigError { message: m });
        }
        if f64_bits_not_at_least_one_exec(self.retry.backoff_multiplier_bits) {
            return config_error("retry.backoff_multiplier must be >= 1.0");
        }
        let level = self.logging.level.as_str();
        if !(str_eq(level, "trace") || str_eq(level, "debug") || str_eq(level, "info")
            || str_eq(level, "warn") || str_eq(level, "error")) {
            let mut m = String::new();
            push_str(&mut m, "Invalid log level: ");
            push_str(&mut m, level);
            push_str(&mut m, ". Valid levels: [\"trace\", \"debug\", \"info\", \"warn\", \"error\"]");
            return Err(ConfigError { message: m });
        }
        let format = self.logging.format.as_str();
        if !(str_eq(format, "pretty") || str_eq(format, "json") || str_eq(format, "compact")) {
            let mut m = String::new();
            push_str(&mut m, "Invalid log format: ");
            push_str(&mut m, format);
            push_str(&mut m, ". Valid formats: [\"pretty\", \"json\", \"compact\"]");
            return Err(ConfigError { message: m });
        }
        if self.ipc.timeout_secs == 0 {
            return config_error("ipc.timeout_secs must be greater than 0");
        }
        if self.worker.poll_interval_ms == 0 {
            return config_error("worker.poll_interval_ms must be greater than 0");
        }
        if self.worker.queue_size == 0 {
            return config_error("worker.queue_size must be greater than 0");
        }
        if self.worker.prefetch && self.worker.prefetch_count == 0 {
            return config_error("worker.prefetch_count must be greater than 0 when prefetch is enabled");
        }
        if self.worker.shutdown_timeout_secs == 0 {
            return config_error("worker.shutdown_timeout_secs must be greater than 0");
        }
        Ok(())
    }

    /// Applies the environment's overrides: each variable that is set replaces its setting;
    /// a number that does not read as one is ignored, a flag that does not read as one is true.
    pub fn apply_env_overrides(&mut self, env: &EnvOverrides)
        ensures
            final(self).max_workers == num_override(env.max_workers, old(self).max_workers as nat, usize::MAX as nat),
            opt_view(final(self).db_path) == path_override(env.db_path, opt_view(old(self).db_path)),
            opt_view(final(self).jsonl_path) == path_override(env.jsonl_path, opt_view(old(self).jsonl_path)),
            final(self).logging.level@ == text_override(env.log_level, old(self).logging.level@),
            env_applied_rest(*final(self), *old(self), *env),
            env_numbers_set(*final(self), *old(self), *env),
    {
        self.max_workers = override_usize(&env.max_workers, self.max_workers);
        let db = self.db_path.take();
        self.db_path = override_path(&env.db_path, db);
        let jsonl = self.jsonl_path.take();
        self.jsonl_path = override_path(&env.jsonl_path, jsonl);
        match &env.default_timeout {
            Some(s) => match parse_unsigned_exec(s.as_str(), u64::MAX) {
                Some(n) => {
                    self.default_timeout = Some(n);
                },
                None => {},
            },
            None => {},
        }
        self.retry.max_retries = override_usize(&env.max_retries, self.retry.max_retries);
        self.retry.initial_backoff_secs = override_u64(&env.initial_backoff_secs, self.retry.initial_backoff_secs);
        self.retry.max_backoff_secs = override_u64(&env.max_backoff_secs, self.retry.max_backoff_secs);
        match env.backoff_multiplier_bits {
            Some(b) => {
                self.retry.backoff_multiplier_bits = b;
            },
            None => {},
        }
        self.logging.level = override_text(&env.log_level, self.logging.level.clone());
        self.logging.format = override_text(&env.log_format, self.logging.format.clone());
        let file = self.logging.file.take();
        self.logging.file = override_path(&env.log_file, file);
        self.logging.colors = override_flag(&env.log_colors, self.logging.colors);
        let socket = self.ipc.socket_path.take();
        self.ipc.socket_path = override_path(&env.ipc_socket_path, socket);
        self.ipc.enabled = override_flag(&env.ipc_enabled, self.ipc.enabled);
        self.ipc.timeout_secs = override_u64(&env.ipc_timeout_secs, self.ipc.timeout_secs);
        self.worker.poll_interval_ms = override_u64(&env.worker_poll_interval_ms, self.worker.poll_interval_ms);
        self.worker.queue_size = override_usize(&env.worker_queue_size, self.worker.queue_size);
        self.worker.prefetch = override_flag(&env.worker_prefetch, self.worker.prefetch);
        self.worker.prefetch_count = override_usize(&env.worker_prefetch_count, self.worker.prefetch_count);
        self.worker.shutdown_timeout_secs = override_u64(&env.worker_shutdown_timeout_secs, self.worker.shutdown_timeout_secs);
        proof { lemma_env_numbers(*self, *old(self), *env); }
    }

    /// Merges the environment's and the command line's overrides, the command line winning:
    /// its worker count if given, its log level if it names one (`--log-level`, `--debug`
    /// or `--verbose`; else the environment's or the file's stands), and, with a beads directory given, the
    /// database and JSONL paths inside it for those still unset.
    pub fn merge_with_cli(&mut self, cli: &Cli, env: &EnvOverrides)
        ensures
            final(self).max_workers == match cli.max_workers {
                Some(n) => n,
                None => num_override(env.max_workers, old(self).max_workers as nat, usize::MAX as nat) as usize,
            },
            final(self).logging.level@ == if cli_names_level(*cli) {
                log_level_of(*cli)
            } else {
                text_override(env.log_level, old(self).logging.level@)
            },
            opt_view(final(self).db_path) == match (path_override(env.db_path, opt_view(old(self).db_path)), cli.beads_dir) {
                (None, Some(d)) => Some(path_join(d@, "beads.db"@)),
                (p, _) => p,
            },
            opt_view(final(self).jsonl_path) == match (path_override(env.jsonl_path, opt_view(old(self).jsonl_path)), cli.beads_dir) {
                (None, Some(d)) => Some(path_join(d@, "issues.jsonl"@)),
                (p, _) => p,
            },
            env_applied_rest(*final(self), *old(self), *env),
    {
        self.apply_env_overrides(env);
        match cli.max_workers {
            Some(n) => {
                self.max_workers = n;
            },
            None => {},
        }
        if cli.log_level.is_some() || cli.debug || cli.verbose {
            self.logging.level = cli.get_log_level();
        }
        match &cli.beads_dir {
            Some(d) => {
                if self.db_path.is_none() {
                    self.db_path = Some(path_join_exec(d.as_str(), "beads.db"));
                }
                if self.jsonl_path.is_none() {
                    self.jsonl_path = Some(path_join_exec(d.as_str(), "issues.jsonl"));
                }
            },
            None => {},
        }
    }

    /// The database path: the configured one, else "beads.db" in `beads_dir`.
    pub fn get_db_path(&self, beads_dir: &str) -> (r: String)
        ensures
            r@ == match self.db_path {
                Some(p) => p@,
                None => path_join(beads_dir@, "beads.db"@),
            },
    {
        match &self.db_path {
            Some(p) => p.clone(),
            None => path_join_exec(beads_dir, "beads.db"),
        }
    }

    /// The JSONL path: the configured one, else "issues.jsonl" in `beads_dir`.
    pub fn get_jsonl_path(&self, beads_dir: &str) -> (r: String)
        ensures
            r@ == match self.jsonl_path {
                Some(p) => p@,
                None => path_join(beads_dir@, "issues.jsonl"@),
            },
    {
        match &self.jsonl_path {
            Some(p) => p.clone(),
            None => path_join_exec(beads_dir, "issues.jsonl"),
        }
    }

    /// The IPC socket path: the configured one, else "beads-workers.sock" in `beads_dir`.
    pub fn get_socket_path(&self, beads_dir: &str) -> (r: String)
        ensures
            r@ == match self.ipc.socket_path {
                Some(p) => p@,
                None => path_join(beads_dir@, "beads-workers.sock"@),
            },
    {
        match &self.ipc.socket_path {
            Some(p) => p.clone(),
            None => path_join_exec(beads_dir, "beads-workers.sock"),
        }
    }
}

} // verus!
