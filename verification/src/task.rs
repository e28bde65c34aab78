use crate::error::TaskError;
use std::time::Duration;
use vstd::prelude::*;

verus! {

/// Where a task stands in its life.
#[derive(Debug, Clone, Copy, PartialEq, Eq, Structural)]
pub enum TaskStatus {
    /// Created, not started yet.
    Pending,
    /// Its work is under way.
    Running,
    /// Its work succeeded.
    Completed,
    /// Its work failed or ran out of time.
    Failed,
    /// Skipped because another task with its id was running.
    SkippedDuplicate,
    /// Cancelled before it ended.
    Cancelled,
}

/// What running a task gave.
#[derive(Debug, Clone)]
pub enum TaskResult {
    /// The work succeeded; the message says so.
    Success(String),
    /// The work failed, and why.
    Failure(TaskError),
    /// The work was not run.
    Skipped,
}

/// How a task's work ended, as seen by whoever drove it.
#[derive(Debug)]
pub enum ExecutionOutcome {
    /// The work returned a value.
    Succeeded,
    /// The work returned an error.
    Failed(TaskError),
    /// The work did not end within the task's time limit.
    TimedOut,
}

/// The message that a successful task's result carries.
pub const SUCCESS_MESSAGE: &'static str = "任务执行成功";

/// The result that an outcome gives: success with the success message, the
/// work's own error, or a timeout error.
pub open spec fn result_of(outcome: ExecutionOutcome, r: TaskResult) -> bool {
    match outcome {
        ExecutionOutcome::Succeeded => r matches TaskResult::Success(m) && m@ == SUCCESS_MESSAGE@,
        ExecutionOutcome::Failed(e) => r == TaskResult::Failure(e),
        ExecutionOutcome::TimedOut => r == TaskResult::Failure(TaskError::Timeout),
    }
}

/// The status in which a task ends with the given result.
pub open spec fn status_after(r: TaskResult) -> TaskStatus {
    match r {
        TaskResult::Success(_) => TaskStatus::Completed,
        TaskResult::Failure(_) => TaskStatus::Failed,
        TaskResult::Skipped => TaskStatus::SkippedDuplicate,
    }
}

impl TaskResult {
    /// The result of a task whose work ended with `outcome`.
    pub fn from_outcome(outcome: ExecutionOutcome) -> (r: TaskResult)
        ensures
            result_of(outcome, r),
            outcome matches ExecutionOutcome::Failed(e) ==> r == TaskResult::Failure(e),
            outcome is TimedOut ==> r == TaskResult::Failure(TaskError::Timeout),
            outcome is Succeeded ==> r is Success,
    {
        match outcome {
            ExecutionOutcome::Succeeded => TaskResult::Success(SUCCESS_MESSAGE.to_owned()),
            ExecutionOutcome::Failed(e) => TaskResult::Failure(e),
            ExecutionOutcome::TimedOut => TaskResult::Failure(TaskError::Timeout),
        }
    }
}

impl TaskStatus {
    /// The status in which a task ends with `result`.
    pub fn after_result(result: &TaskResult) -> (s: TaskStatus)
        ensures
            s == status_after(*result),
    {
        match result {
            TaskResult::Success(_) => TaskStatus::Completed,
            TaskResult::Failure(_) => TaskStatus::Failed,
            TaskResult::Skipped => TaskStatus::SkippedDuplicate,
        }
    }
}

/// A unit of work with an id and an optional time limit.
pub struct Task<F> {
    pub id: String,
    pub future: F,
    pub timeout: Option<Duration>,
    pub status: TaskStatus,
}

impl<F> Task<F> {
    /// A pending task that will run `future`.
    pub fn new(id: String, future: F, timeout: Option<Duration>) -> (t: Self)
        ensures
            t.id == id,
            t.future == future,
            t.timeout == timeout,
            t.status == TaskStatus::Pending,
    {
        Task { id, future, timeout, status: TaskStatus::Pending }
    }

    /// The task's current status.
    pub fn get_status(&self) -> (s: TaskStatus)
        ensures
            s == self.status,
    {
        self.status
    }

    /// Starts the task: hands out its work to be driven, and keeps the record
    /// of the run, which is now running.
    pub fn start(self) -> (r: (TaskRun, F))
        ensures
            r.0.id == self.id,
            r.0.timeout == self.timeout,
            r.0.status == TaskStatus::Running,
            r.1 == self.future,
    {
        (TaskRun { id: self.id, timeout: self.timeout, status: TaskStatus::Running }, self.future)
    }
}

/// The record of a task whose work has been handed out.
pub struct TaskRun {
    pub id: String,
    pub timeout: Option<Duration>,
    pub status: TaskStatus,
}

impl TaskRun {
    /// The run's current status.
    pub fn get_status(&self) -> (s: TaskStatus)
        ensures
            s == self.status,
    {
        self.status
    }

    /// Records how the work ended: gives the task's result and moves the run
    /// to the status that goes with it.
    pub fn finish(&mut self, outcome: ExecutionOutcome) -> (r: TaskResult)
        ensures
            result_of(outcome, r),
            outcome matches ExecutionOutcome::Failed(e) ==> r == TaskResult::Failure(e),
            outcome is TimedOut ==> r == TaskResult::Failure(TaskError::Timeout),
            outcome is Succeeded ==> r is Success,
            final(self).status == status_after(r),
            final(self).id == old(self).id,
            final(self).timeout == old(self).timeout,
    {
        let result = TaskResult::from_outcome(outcome);
        self.status = TaskStatus::after_result(&result);
        result
    }
}

} // verus!
