//! Settings of the worker side of the socket connection.
//!
//! The connection itself (connecting with retries, framed reads and writes)
//! is driven by the caller with the framing of `protocol`.

use vstd::prelude::*;
use crate::config::TWO_F64_BITS;

verus! {

/// Most bytes of a message read from the socket.
pub const IPC_MAX_MESSAGE_SIZE: usize = 1048576;

/// Milliseconds allowed for connecting.
pub const CONNECT_TIMEOUT_MS: u64 = 5000;

/// Milliseconds allowed for reading a reply.
pub const READ_TIMEOUT_MS: u64 = 30000;

/// How a worker retries connecting to the orchestrator.
#[derive(Debug, Clone, Copy, PartialEq, Eq, Structural)]
pub struct RetryConfig {
    /// Connection attempts.
    pub max_attempts: u32,
    /// Wait before the second attempt, in milliseconds.
    pub initial_backoff_ms: u64,
    /// Longest wait between attempts, in milliseconds.
    pub max_backoff_ms: u64,
    /// Factor by which the wait grows, as the bit pattern of an IEEE 754 double.
    pub multiplier_bits: u64,
}

impl Default for RetryConfig {
    fn default() -> (c: Self)
        ensures
            c == (RetryConfig {
                max_attempts: 5,
                initial_backoff_ms: 1000,
                max_backoff_ms: 60000,
                multiplier_bits: TWO_F64_BITS,
            }),
    {
        RetryConfig { max_attempts: 5, initial_backoff_ms: 1000, max_backoff_ms: 60000, multiplier_bits: TWO_F64_BITS }
    }
}

} // verus!
