use vstd::prelude::*;

verus! {

/// Why the scheduler refused or failed a request.
#[derive(Debug, Clone)]
pub enum SchedulerError {
    /// The scheduler has been shut down.
    Shutdown,
    /// A task with this id is running already.
    DuplicateTaskId(String),
    /// A task ran out of time.
    Timeout,
    /// Any other failure, with its message.
    Other(String),
}

/// Why a task did not succeed.
#[derive(Debug, Clone)]
pub enum TaskError {
    /// The task's own work failed, with its message.
    ExecutionFailed(String),
    /// The task was cancelled.
    Cancelled,
    /// The task ran past its time limit.
    Timeout,
}

} // verus!
