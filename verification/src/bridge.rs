//! What an agent bridge reports about the process it supervises, and the
//! state the bridge is in.

use vstd::prelude::*;

verus! {

/// Events the bridge emits about the underlying agent process.
#[derive(Debug, Clone, PartialEq, Eq)]
pub enum BridgeEvent {
    /// The process started, with its PID.
    ProcessStarted { pid: u32 },
    /// A line arrived on stdout.
    Stdout { line: String },
    /// A line arrived on stderr.
    Stderr { line: String },
    /// The process exited.
    ProcessExited { exit_code: i32 },
    /// The process failed to start.
    StartFailed { reason: String },
}

/// The bridge's state.
#[derive(Debug, Clone, Copy, PartialEq, Eq, Structural)]
pub enum BridgeState {
    Idle,
    Running,
    Stopped,
    Failed,
}

} // verus!
