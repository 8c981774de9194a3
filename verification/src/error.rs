//! Error taxonomy of the distributed execution core. Task-level faults are
//! values of this type and are reported upward; they never escape to crash
//! an executor process.

use vstd::prelude::*;

verus! {

/// The faults the core distinguishes.
#[derive(Debug, Clone)]
pub enum KapotError {
    /// A failure described by a message, such as an invalid configuration
    /// value.
    General(String),
    /// A disk read or write failure: fails the task, not the process.
    IoError(String),
    /// An RPC failure: retried with backoff at the poll-loop boundary.
    NetworkError(String),
    /// A fault inside a running operator tree, caught at the task-executor
    /// boundary and reported as a failed task.
    ExecutionError(String),
    /// Resolution was attempted while the named upstream stage had not yet
    /// reported completion for all its partitions.
    UnresolvedDependency(usize),
    /// The work was aborted on request; distinct from failure.
    Cancelled,
}

} // verus!
