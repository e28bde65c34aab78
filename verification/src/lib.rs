//! Bookkeeping core of a task scheduler: which tasks run, how many slots of
//! the concurrency limit are free, whether the scheduler has been shut down,
//! and what a task's outcome and status are.

pub mod error;
pub mod laws;
pub mod scheduler;
pub mod task;

pub use error::{SchedulerError, TaskError};
pub use scheduler::{ShutdownAction, SubmitStep, TaskScheduler};
pub use task::{ExecutionOutcome, Task, TaskResult, TaskRun, TaskStatus};
