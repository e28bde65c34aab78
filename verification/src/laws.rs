use crate::error::TaskError;
use crate::scheduler::{tickets_of, SchedulerView};
use crate::task::{result_of, status_after, ExecutionOutcome, TaskResult, TaskStatus};
use vstd::prelude::*;

verus! {

/// A fresh scheduler is valid, runs nothing, has every slot free, has nobody
/// waiting and accepts tasks.
pub proof fn law_initial_state(max_concurrency: nat)
    ensures
        SchedulerView::initial(max_concurrency).valid(),
        SchedulerView::initial(max_concurrency).running.len() == 0,
        SchedulerView::initial(max_concurrency).waiting.len() == 0,
        SchedulerView::initial(max_concurrency).available == max_concurrency,
        !SchedulerView::initial(max_concurrency).is_shutdown,
{
}

/// Never do more tasks run than the concurrency limit allows, and the number
/// of running tasks is the number of slots taken.
pub proof fn law_running_within_limit(s: SchedulerView)
    requires
        s.valid(),
    ensures
        s.running.len() <= s.max_concurrency,
        s.running.len() == s.max_concurrency - s.available,
{
}

/// Every step of the scheduler keeps it valid: starting a task that does not
/// run in a free slot, a task's end, cancelling all tasks, shutting down, and
/// joining the line with a ticket no waiter holds, leaving it first, or
/// giving a place up.
pub proof fn law_steps_keep_valid(s: SchedulerView, id: Seq<char>, ticket: u64)
    requires
        s.valid(),
    ensures
        s.available > 0 && !s.is_running(id) ==> s.start(id).valid(),
        s.complete(id).valid(),
        s.cancel_all().valid(),
        s.shut_down().valid(),
        !s.holds_ticket(ticket) ==> s.enqueue(ticket, id).valid(),
        s.waiting.len() > 0 ==> s.leave_line().valid(),
        s.abandon(ticket).valid(),
{
    s.running.index_of_first_ensures(id);
    let t = tickets_of(s.waiting);
    t.index_of_first_ensures(ticket as int);
    assert(tickets_of(s.enqueue(ticket, id).waiting) =~= t.push(ticket as int));
    if s.waiting.len() > 0 {
        assert(tickets_of(s.leave_line().waiting) =~= t.drop_first());
        assert forall|a: int, b: int| 0 <= a < b < t.drop_first().len() implies t.drop_first()[a]
            != t.drop_first()[b] by {
            assert(t.drop_first()[a] == t[a + 1]);
            assert(t.drop_first()[b] == t[b + 1]);
        }
    }
    if t.contains(ticket as int) {
        let i = t.index_of_first(ticket as int).unwrap();
        assert(tickets_of(s.abandon(ticket).waiting) =~= t.remove(i));
    }
}

/// A task that has started is running, so every later submission or waiter
/// with its id is refused while it runs: no two tasks with one id run at once.
pub proof fn law_started_task_is_running(s: SchedulerView, id: Seq<char>)
    requires
        s.valid(),
        s.available > 0,
        !s.is_running(id),
    ensures
        s.start(id).is_running(id),
        s.start(id).running.len() == s.running.len() + 1,
        s.start(id).is_shutdown == s.is_shutdown,
{
    assert(s.running.push(id)[s.running.len() as int] == id);
}

/// Once shut down, a scheduler stays shut down, whatever starts, ends, waits
/// or is cancelled, and so refuses every new task.
pub proof fn law_shutdown_is_permanent(s: SchedulerView, id: Seq<char>, ticket: u64)
    ensures
        s.shut_down().is_shutdown,
        s.is_shutdown ==> s.start(id).is_shutdown,
        s.is_shutdown ==> s.complete(id).is_shutdown,
        s.is_shutdown ==> s.cancel_all().is_shutdown,
        s.is_shutdown ==> s.enqueue(ticket, id).is_shutdown,
        s.is_shutdown ==> s.leave_line().is_shutdown,
        s.is_shutdown ==> s.abandon(ticket).is_shutdown,
{
}

/// A task that has ended no longer runs; where it ran, one task fewer runs and
/// one more slot is free, so the first waiting submission can go ahead.
pub proof fn law_completed_task_is_gone(s: SchedulerView, id: Seq<char>)
    requires
        s.valid(),
    ensures
        !s.complete(id).is_running(id),
        s.is_running(id) ==> s.complete(id).running.len() == s.running.len() - 1,
        s.is_running(id) ==> s.complete(id).available == s.available + 1,
        s.is_running(id) ==> s.complete(id).available > 0,
        !s.is_running(id) ==> s.complete(id) == s,
{
    s.running.index_of_first_ensures(id);
    if s.running.contains(id) {
        let i = s.running.index_of_first(id).unwrap();
        s.running.remove_ensures(i);
        if s.complete(id).running.contains(id) {
            let k = choose|k: int|
                0 <= k < s.complete(id).running.len() && s.complete(id).running[k] == id;
            let k0 = if k < i { k } else { k + 1 };
            assert(s.running[k0] == id);
        }
    }
}

/// Starting a task with a fresh id and then its end give back the state
/// before it started.
pub proof fn law_start_then_complete_restores(s: SchedulerView, id: Seq<char>)
    requires
        s.valid(),
        s.available > 0,
        !s.is_running(id),
    ensures
        s.start(id).complete(id) == s,
{
    let t = s.start(id);
    t.running.index_of_first_ensures(id);
    assert(t.running[s.running.len() as int] == id);
    let i = t.running.index_of_first(id).unwrap();
    assert(i == s.running.len());
    assert(t.running.remove(i) =~= s.running);
}

/// After every task is cancelled nothing runs and every slot is free.
pub proof fn law_cancel_all_empties(s: SchedulerView)
    requires
        s.valid(),
    ensures
        s.cancel_all().running.len() == 0,
        s.cancel_all().available == s.max_concurrency,
{
}

/// The line is first come, first served: a new waiter goes to its end behind
/// everyone who waits, and leaving it takes only the first one, so the others
/// keep their order.
pub proof fn law_line_is_first_come_first_served(s: SchedulerView, id: Seq<char>, ticket: u64)
    ensures
        s.enqueue(ticket, id).waiting.len() == s.waiting.len() + 1,
        s.enqueue(ticket, id).waiting[s.waiting.len() as int] == (ticket, id),
        forall|i: int|
            0 <= i < s.waiting.len() ==> #[trigger] s.enqueue(ticket, id).waiting[i] == s.waiting[i],
        s.waiting.len() > 0 ==> s.leave_line().waiting.len() == s.waiting.len() - 1,
        s.waiting.len() > 0 ==> forall|i: int|
            0 <= i < s.leave_line().waiting.len() ==> #[trigger] s.leave_line().waiting[i] == s.waiting[i + 1],
{
}

/// A task ends in `Completed` exactly where its work succeeded; a failure or
/// a timeout ends it in `Failed`, and a timeout's error is `Timeout`.
pub proof fn law_final_status(outcome: ExecutionOutcome, r: TaskResult)
    requires
        result_of(outcome, r),
    ensures
        status_after(r) == (if outcome is Succeeded {
            TaskStatus::Completed
        } else {
            TaskStatus::Failed
        }),
        outcome is TimedOut ==> r == TaskResult::Failure(TaskError::Timeout),
{
}

/// Giving up a place in line takes out exactly the entry with that ticket:
/// every other waiter keeps its ticket and its order, so the one first in line
/// stays first unless it is the one that gave up, in which case the next one
/// moves up.
pub proof fn law_abandon_keeps_the_others_in_order(s: SchedulerView, ticket: u64, other: u64)
    requires
        s.valid(),
        s.holds_ticket(ticket),
    ensures
        !s.abandon(ticket).holds_ticket(ticket),
        other != ticket ==> (s.abandon(ticket).holds_ticket(other) == s.holds_ticket(other)),
        s.abandon(ticket).waiting.len() == s.waiting.len() - 1,
        s.waiting[0].0 != ticket ==> s.abandon(ticket).waiting[0] == s.waiting[0],
        s.waiting[0].0 == ticket ==> s.abandon(ticket).waiting == s.waiting.drop_first(),
{
    let t = tickets_of(s.waiting);
    t.index_of_first_ensures(ticket as int);
    let i = t.index_of_first(ticket as int).unwrap();
    s.waiting.remove_ensures(i);
    let w = s.abandon(ticket).waiting;
    assert(w == s.waiting.remove(i));
    assert(tickets_of(w) =~= t.remove(i));
    t.remove_ensures(i);
    if tickets_of(w).contains(ticket as int) {
        let k = choose|k: int| 0 <= k < tickets_of(w).len() && tickets_of(w)[k] == ticket as int;
        let k0 = if k < i { k } else { k + 1 };
        assert(t[k0] == ticket as int);
    }
    if other != ticket {
        if t.contains(other as int) {
            let k = choose|k: int| 0 <= k < t.len() && t[k] == other as int;
            assert(k != i);
            let k1 = if k < i { k } else { k - 1 };
            assert(tickets_of(w)[k1] == other as int);
        }
        if tickets_of(w).contains(other as int) {
            let k = choose|k: int| 0 <= k < tickets_of(w).len() && tickets_of(w)[k] == other as int;
            let k0 = if k < i { k } else { k + 1 };
            assert(t[k0] == other as int);
        }
    }
    if s.waiting[0].0 == ticket {
        assert(t[0] == ticket as int);
        assert(i == 0);
        assert(w =~= s.waiting.drop_first());
    }
}

/// A new submission takes a slot at once only when a slot is free and nobody
/// waits in line; whenever someone waits, it joins the end of the line behind
/// them, and nothing else changes.
pub proof fn law_no_jumping_the_line(s: SchedulerView, ticket: u64, id: Seq<char>)
    ensures
        s.can_start_now() ==> s.available > 0 && s.waiting.len() == 0,
        s.waiting.len() > 0 ==> !s.can_start_now(),
        s.available == 0 ==> !s.can_start_now(),
        s.enqueue(ticket, id).waiting == s.waiting.push((ticket, id)),
        s.enqueue(ticket, id).running == s.running,
        s.enqueue(ticket, id).available == s.available,
        s.available > 0 ==> s.start(id).running == s.running.push(id),
        s.available > 0 ==> s.start(id).available + 1 == s.available,
        s.start(id).waiting == s.waiting,
{
}

/// Only the submission first in line is ever answered: a ticket counts as
/// first exactly when the first entry of the line holds it, so in a valid line
/// no later waiter does; the one that starts is the first waiter's own task,
/// and it leaves the line while everyone behind it keeps their order.
pub proof fn law_only_the_first_in_line_is_answered(s: SchedulerView, ticket: u64, i: int)
    requires
        s.valid(),
    ensures
        s.is_first_waiting(ticket) <==> (s.waiting.len() > 0 && s.waiting[0].0 == ticket),
        0 < i < s.waiting.len() ==> !s.is_first_waiting(s.waiting[i].0),
        s.is_first_waiting(ticket) ==> s.first_waiting_id() == s.waiting[0].1,
        s.waiting.len() > 0 ==> s.leave_line().waiting == s.waiting.subrange(1, s.waiting.len() as int),
        s.waiting.len() > 0 ==> s.leave_line().running == s.running,
        s.waiting.len() > 0 ==> s.leave_line().available == s.available,
{
    if 0 < i < s.waiting.len() {
        let t = tickets_of(s.waiting);
        assert(t[0] == s.waiting[0].0 as int);
        assert(t[i] == s.waiting[i].0 as int);
    }
}

/// A task whose work fails with an error ends with exactly that error: the
/// error is handed on unchanged, whatever it is.
pub proof fn law_failure_passes_through(e: TaskError, r: TaskResult)
    requires
        result_of(ExecutionOutcome::Failed(e), r),
    ensures
        r == TaskResult::Failure(e),
        status_after(r) == TaskStatus::Failed,
{
}

/// Shutting down changes nothing but the flag: the running tasks, the free
/// slots and the submissions already waiting in line all stay as they were,
/// so an accepted waiter still gets its slot.
pub proof fn law_shutdown_changes_only_the_flag(s: SchedulerView)
    ensures
        s.shut_down().is_shutdown,
        s.shut_down().waiting == s.waiting,
        s.shut_down().running == s.running,
        s.shut_down().available == s.available,
        s.shut_down().max_concurrency == s.max_concurrency,
{
}

/// Giving up a place removes exactly the entry with that ticket, wherever it
/// stands, and leaves every other waiter in its order: the line that remains
/// is the old one with that one entry taken out.
pub proof fn law_abandon_removes_exactly_that_entry(s: SchedulerView, ticket: u64, i: int)
    requires
        s.valid(),
        0 <= i < s.waiting.len(),
        s.waiting[i].0 == ticket,
    ensures
        s.abandon(ticket).waiting == s.waiting.subrange(0, i) + s.waiting.subrange(
            i + 1,
            s.waiting.len() as int,
        ),
        forall|j: int| 0 <= j < i ==> #[trigger] s.abandon(ticket).waiting[j] == s.waiting[j],
        forall|j: int|
            i < j < s.waiting.len() ==> #[trigger] s.abandon(ticket).waiting[j - 1] == s.waiting[j],
        s.abandon(ticket).running == s.running,
        s.abandon(ticket).available == s.available,
{
    crate::scheduler::lemma_ticket_at(s, ticket, i);
}

} // verus!
