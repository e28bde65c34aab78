use std::time::Duration;
use task_sched::{
    ExecutionOutcome, SchedulerError, ShutdownAction, SubmitStep, Task, TaskError, TaskResult,
    TaskScheduler, TaskStatus,
};

fn run_to_end(scheduler: &mut TaskScheduler, task: Task<()>, outcome: ExecutionOutcome) -> TaskResult {
    let (mut run, _work) = task.start();
    assert_eq!(run.get_status(), TaskStatus::Running);
    let result = run.finish(outcome);
    scheduler.complete(&run.id);
    result
}

#[test]
fn test_basic_task_execution() {
    let mut scheduler = TaskScheduler::new(2);
    let task = Task::new("test-task".to_string(), (), Some(Duration::from_secs(1)));
    assert!(scheduler.submit(task.id.clone()).is_ok());
    assert_eq!(scheduler.running_count(), 1);
    let result = run_to_end(&mut scheduler, task, ExecutionOutcome::Succeeded);
    assert!(matches!(result, TaskResult::Success(ref m) if m == "任务执行成功"));
    assert_eq!(scheduler.running_count(), 0);
}

#[test]
fn test_duplicate_task_id() {
    let mut scheduler = TaskScheduler::new(2);
    let task1 = Task::new("duplicate-task".to_string(), "first", Some(Duration::from_secs(1)));
    let task2 = Task::new("duplicate-task".to_string(), "second", Some(Duration::from_secs(1)));
    assert!(scheduler.submit(task1.id.clone()).is_ok());
    match scheduler.submit(task2.id.clone()) {
        Err(SchedulerError::DuplicateTaskId(id)) => {
            assert_eq!(id, "duplicate-task");
        }
        _ => panic!("应该检测到重复任务ID"),
    }
    assert_eq!(scheduler.running_count(), 1);
}

#[test]
fn test_concurrency_limit() {
    let mut scheduler = TaskScheduler::new(2);
    let mut steps = Vec::new();
    for i in 0..3 {
        let task = Task::new(format!("task-{}", i), (), Some(Duration::from_secs(1)));
        let step = scheduler.submit(task.id.clone());
        assert!(step.is_ok());
        steps.push(step.unwrap());
    }
    assert_eq!(steps, vec![SubmitStep::Started, SubmitStep::Started, SubmitStep::WaitForPermit(0)]);
    let running_count = scheduler.running_count();
    assert!(running_count <= 2, "运行任务数: {}, 应该 <= 2", running_count);

    assert_eq!(scheduler.waiting_count(), 1);
    scheduler.complete(&"task-0".to_string());
    assert_eq!(scheduler.start_after_wait(0).unwrap(), true);
    assert_eq!(scheduler.get_task_status("task-2"), Some(TaskStatus::Running));
    assert_eq!(scheduler.waiting_count(), 0);
    assert_eq!(scheduler.running_count(), 2);
    scheduler.complete(&"task-1".to_string());
    scheduler.complete(&"task-2".to_string());
    assert_eq!(scheduler.running_count(), 0);
    assert_eq!(scheduler.available_permits(), 2);
}

#[test]
fn test_task_failure() {
    let mut scheduler = TaskScheduler::new(1);
    let task = Task::new("failing-task".to_string(), (), Some(Duration::from_secs(1)));
    assert!(scheduler.submit(task.id.clone()).is_ok());
    let (mut run, _work) = task.start();
    let result = run.finish(ExecutionOutcome::Failed(TaskError::ExecutionFailed(
        "测试失败".to_string(),
    )));
    assert!(matches!(result, TaskResult::Failure(TaskError::ExecutionFailed(ref m)) if m == "测试失败"));
    assert_eq!(run.get_status(), TaskStatus::Failed);
    scheduler.complete(&run.id);
    assert_eq!(scheduler.running_count(), 0);
}

#[test]
fn test_shutdown() {
    let mut scheduler = TaskScheduler::new(1);
    let task = Task::new("long-task".to_string(), "completed", Some(Duration::from_secs(1)));
    assert!(scheduler.submit(task.id.clone()).is_ok());
    scheduler.shutdown();
    // The running task is waited for, not cancelled, while time is left.
    assert_eq!(scheduler.shutdown_step(false), ShutdownAction::WaitAndPoll);
    scheduler.complete(&task.id);
    assert_eq!(scheduler.shutdown_step(false), ShutdownAction::Finished);
}

#[test]
fn test_shutdown_after_shutdown() {
    let mut scheduler = TaskScheduler::new(1);
    scheduler.shutdown();
    assert_eq!(scheduler.shutdown_step(true), ShutdownAction::Finished);
    let task = Task::new("task-after-shutdown".to_string(), "should not run", Some(Duration::from_secs(1)));
    match scheduler.submit(task.id.clone()) {
        Err(SchedulerError::Shutdown) => {}
        _ => panic!("应该返回Shutdown错误"),
    }
    assert_eq!(scheduler.running_count(), 0);
}

#[test]
fn shutdown_refuses_even_a_running_id() {
    let mut scheduler = TaskScheduler::new(2);
    assert_eq!(scheduler.submit("a".to_string()).unwrap(), SubmitStep::Started);
    scheduler.shutdown();
    assert!(scheduler.is_shutdown());
    assert!(matches!(scheduler.submit("a".to_string()), Err(SchedulerError::Shutdown)));
    assert!(matches!(scheduler.submit("b".to_string()), Err(SchedulerError::Shutdown)));
    scheduler.complete(&"a".to_string());
    assert!(matches!(scheduler.submit("c".to_string()), Err(SchedulerError::Shutdown)));
}

#[test]
fn new_scheduler_state() {
    let scheduler = TaskScheduler::new(3);
    assert_eq!(scheduler.max_concurrency(), 3);
    assert_eq!(scheduler.available_permits(), 3);
    assert_eq!(scheduler.running_count(), 0);
    assert!(!scheduler.is_shutdown());
    assert!(scheduler.get_running_task_ids().is_empty());
    assert_eq!(scheduler.waiting_count(), 0);
}

#[test]
fn task_status_follows_running_set() {
    let mut scheduler = TaskScheduler::new(2);
    assert_eq!(scheduler.get_task_status("x"), None);
    scheduler.submit("x".to_string()).unwrap();
    assert_eq!(scheduler.get_task_status("x"), Some(TaskStatus::Running));
    assert_eq!(scheduler.get_task_status("y"), None);
    scheduler.complete(&"x".to_string());
    assert_eq!(scheduler.get_task_status("x"), None);
}

#[test]
fn running_ids_in_start_order() {
    let mut scheduler = TaskScheduler::new(3);
    for id in ["b", "a", "c"] {
        scheduler.submit(id.to_string()).unwrap();
    }
    assert_eq!(scheduler.get_running_task_ids(), vec!["b", "a", "c"]);
    scheduler.complete(&"a".to_string());
    assert_eq!(scheduler.get_running_task_ids(), vec!["b", "c"]);
}

#[test]
fn waiting_submission_joins_the_line() {
    let mut scheduler = TaskScheduler::new(1);
    scheduler.submit("a".to_string()).unwrap();
    assert_eq!(scheduler.submit("b".to_string()).unwrap(), SubmitStep::WaitForPermit(0));
    assert_eq!(scheduler.get_running_task_ids(), vec!["a"]);
    assert_eq!(scheduler.waiting_count(), 1);
    assert_eq!(scheduler.available_permits(), 0);
    assert_eq!(scheduler.start_after_wait(0).unwrap(), false);
    scheduler.complete(&"a".to_string());
    assert_eq!(scheduler.available_permits(), 1);
    assert_eq!(scheduler.start_after_wait(0).unwrap(), true);
    assert_eq!(scheduler.get_running_task_ids(), vec!["b"]);
    assert_eq!(scheduler.available_permits(), 0);
    assert_eq!(scheduler.waiting_count(), 0);
}

#[test]
fn zero_limit_always_waits() {
    let mut scheduler = TaskScheduler::new(0);
    assert_eq!(scheduler.submit("a".to_string()).unwrap(), SubmitStep::WaitForPermit(0));
    assert_eq!(scheduler.start_after_wait(0).unwrap(), false);
    assert_eq!(scheduler.running_count(), 0);
}

#[test]
fn tickets_are_the_smallest_free() {
    let mut scheduler = TaskScheduler::new(0);
    assert_eq!(scheduler.submit("a".to_string()).unwrap(), SubmitStep::WaitForPermit(0));
    assert_eq!(scheduler.submit("b".to_string()).unwrap(), SubmitStep::WaitForPermit(1));
    assert_eq!(scheduler.submit("c".to_string()).unwrap(), SubmitStep::WaitForPermit(2));
    scheduler.abandon_wait(1);
    assert_eq!(scheduler.submit("d".to_string()).unwrap(), SubmitStep::WaitForPermit(1));
    assert_eq!(scheduler.submit("e".to_string()).unwrap(), SubmitStep::WaitForPermit(3));
    assert_eq!(scheduler.waiting_count(), 4);
}

#[test]
fn waiters_start_first_come_first_served() {
    let mut scheduler = TaskScheduler::new(1);
    scheduler.submit("a".to_string()).unwrap();
    assert_eq!(scheduler.submit("b".to_string()).unwrap(), SubmitStep::WaitForPermit(0));
    assert_eq!(scheduler.submit("c".to_string()).unwrap(), SubmitStep::WaitForPermit(1));
    scheduler.complete(&"a".to_string());
    // A slot is free, but "b" came first.
    assert_eq!(scheduler.start_after_wait(1).unwrap(), false);
    // A new submission does not jump the line either.
    assert_eq!(scheduler.submit("d".to_string()).unwrap(), SubmitStep::WaitForPermit(2));
    assert_eq!(scheduler.start_after_wait(0).unwrap(), true);
    scheduler.complete(&"b".to_string());
    assert_eq!(scheduler.start_after_wait(2).unwrap(), false);
    assert_eq!(scheduler.start_after_wait(1).unwrap(), true);
    assert_eq!(scheduler.get_running_task_ids(), vec!["c"]);
    assert_eq!(scheduler.waiting_count(), 1);
}

#[test]
fn abandoned_waiter_leaves_the_line() {
    let mut scheduler = TaskScheduler::new(1);
    scheduler.submit("a".to_string()).unwrap();
    scheduler.submit("b".to_string()).unwrap();
    scheduler.submit("c".to_string()).unwrap();
    scheduler.abandon_wait(0);
    assert_eq!(scheduler.waiting_count(), 1);
    scheduler.complete(&"a".to_string());
    assert_eq!(scheduler.start_after_wait(1).unwrap(), true);
    assert_eq!(scheduler.get_running_task_ids(), vec!["c"]);
    scheduler.abandon_wait(7);
    assert_eq!(scheduler.waiting_count(), 0);
}

#[test]
fn giving_up_keeps_the_line_order_with_equal_ids() {
    let mut scheduler = TaskScheduler::new(1);
    scheduler.submit("a".to_string()).unwrap();
    assert_eq!(scheduler.submit("x".to_string()).unwrap(), SubmitStep::WaitForPermit(0));
    assert_eq!(scheduler.submit("y".to_string()).unwrap(), SubmitStep::WaitForPermit(1));
    assert_eq!(scheduler.submit("x".to_string()).unwrap(), SubmitStep::WaitForPermit(2));
    // The first "x" gives up; "y" came before the second "x".
    scheduler.abandon_wait(0);
    scheduler.complete(&"a".to_string());
    assert_eq!(scheduler.start_after_wait(2).unwrap(), false);
    assert_eq!(scheduler.start_after_wait(1).unwrap(), true);
    assert_eq!(scheduler.get_running_task_ids(), vec!["y"]);
}

#[test]
fn two_waiters_with_one_id_never_run_together() {
    let mut scheduler = TaskScheduler::new(2);
    scheduler.submit("a".to_string()).unwrap();
    scheduler.submit("b".to_string()).unwrap();
    assert_eq!(scheduler.submit("X".to_string()).unwrap(), SubmitStep::WaitForPermit(0));
    assert_eq!(scheduler.submit("X".to_string()).unwrap(), SubmitStep::WaitForPermit(1));
    scheduler.complete(&"b".to_string());
    assert_eq!(scheduler.start_after_wait(0).unwrap(), true);
    scheduler.complete(&"a".to_string());
    match scheduler.start_after_wait(1) {
        Err(SchedulerError::DuplicateTaskId(id)) => assert_eq!(id, "X"),
        other => panic!("unexpected {:?}", other),
    }
    assert_eq!(scheduler.running_count(), 1);
    assert_eq!(scheduler.available_permits(), 1);
    assert_eq!(scheduler.waiting_count(), 0);
}

#[test]
fn cancel_all_frees_every_slot() {
    let mut scheduler = TaskScheduler::new(3);
    scheduler.submit("a".to_string()).unwrap();
    scheduler.submit("b".to_string()).unwrap();
    scheduler.shutdown();
    assert_eq!(scheduler.shutdown_step(false), ShutdownAction::WaitAndPoll);
    assert_eq!(scheduler.shutdown_step(true), ShutdownAction::CancelRemaining);
    let cancelled = scheduler.cancel_all_tasks();
    assert_eq!(cancelled, vec!["a", "b"]);
    assert_eq!(scheduler.running_count(), 0);
    assert_eq!(scheduler.available_permits(), 3);
    assert_eq!(scheduler.shutdown_step(true), ShutdownAction::Finished);
}

#[test]
fn start_then_complete_restores_state() {
    let mut scheduler = TaskScheduler::new(2);
    scheduler.submit("keep".to_string()).unwrap();
    let before = (scheduler.get_running_task_ids(), scheduler.available_permits());
    scheduler.submit("tmp".to_string()).unwrap();
    scheduler.complete(&"tmp".to_string());
    assert_eq!((scheduler.get_running_task_ids(), scheduler.available_permits()), before);
}

#[test]
fn completing_an_unknown_id_frees_nothing() {
    let mut scheduler = TaskScheduler::new(2);
    scheduler.submit("a".to_string()).unwrap();
    scheduler.complete(&"zzz".to_string());
    assert_eq!(scheduler.available_permits(), 1);
    assert_eq!(scheduler.running_count(), 1);
}

#[test]
fn largest_limit_is_accepted() {
    assert_eq!(task_sched::scheduler::MAX_PERMITS, usize::MAX >> 3);
    let scheduler = TaskScheduler::new(task_sched::scheduler::MAX_PERMITS);
    assert_eq!(scheduler.available_permits(), usize::MAX >> 3);
}
