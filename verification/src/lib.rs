//! Verified core of the beads-workers task orchestrator: message types and
//! their validation, the wire framing, the priority task queue, the worker
//! registry, the orchestrator's decision logic, worker scaling decisions,
//! configuration rules, log filtering and status formatting.

pub mod text;
pub mod ranking;
pub mod types;
pub mod task_poller;
pub mod protocol;
pub mod orchestrator;
pub mod cli;
pub mod config;
pub mod scaler;
pub mod metrics;
pub mod status;
pub mod logs;
pub mod ui;
pub mod ipc;
