# task_sched

A task scheduler with a limit on how many tasks run at once, duplicate-id
rejection and graceful shutdown.

- `src/` is the verified core: the scheduler's books (`scheduler.rs`:
  running tasks, free slots, the first-come-first-served line of ticketed submissions
  that wait for a slot, the shutdown flag),
  tasks, their outcomes and statuses (`task.rs`), the error types
  (`error.rs`), and the laws that relate the operations (`laws.rs`).
- `app/` is the asynchronous front on tokio: it runs each task's work, waits
  for free slots, time limits and the end of running tasks, keeps the join
  handles, logs with tracing, and gives the error types their messages with
  thiserror. Every decision it acts on comes from the core.
- `tests/` exercises the core on concrete values.
