use crate::error::SchedulerError;
use crate::task::TaskStatus;
use vstd::prelude::*;

verus! {

/// The ids of a list of task ids, as character sequences.
pub open spec fn ids_of(v: Seq<String>) -> Seq<Seq<char>> {
    v.map_values(|s: String| s@)
}

/// A line of waiting submissions, each a ticket and a task id, with the ids
/// as character sequences.
pub open spec fn entries_of(v: Seq<(u64, String)>) -> Seq<(u64, Seq<char>)> {
    v.map_values(|e: (u64, String)| (e.0, e.1@))
}

/// The tickets of a line of waiting submissions, in line order.
pub open spec fn tickets_of(w: Seq<(u64, Seq<char>)>) -> Seq<int> {
    w.map_values(|e: (u64, Seq<char>)| e.0 as int)
}

/// The largest number of slots a scheduler can have.
pub const MAX_PERMITS: usize = usize::MAX >> 3;

/// The scheduler's state as the contracts see it.
pub struct SchedulerView {
    /// How many tasks may run at once.
    pub max_concurrency: nat,
    /// How many of those slots are free.
    pub available: nat,
    /// The ids of the running tasks, in the order in which they started.
    pub running: Seq<Seq<char>>,
    /// The submissions that wait for a slot, first come first: each its own
    /// ticket and its task's id.
    pub waiting: Seq<(u64, Seq<char>)>,
    /// Whether the scheduler has been shut down.
    pub is_shutdown: bool,
}

impl SchedulerView {
    /// A fresh scheduler that lets `max_concurrency` tasks run at once.
    pub open spec fn initial(max_concurrency: nat) -> SchedulerView {
        SchedulerView {
            max_concurrency,
            available: max_concurrency,
            running: Seq::empty(),
            waiting: Seq::empty(),
            is_shutdown: false,
        }
    }

    /// Every running task holds exactly one slot, every slot is free or held,
    /// no two running tasks share an id, and no two waiters share a ticket.
    pub open spec fn valid(self) -> bool {
        &&& self.running.len() + self.available == self.max_concurrency
        &&& self.running.no_duplicates()
        &&& tickets_of(self.waiting).no_duplicates()
    }

    /// Whether a waiting submission holds this ticket.
    pub open spec fn holds_ticket(self, ticket: u64) -> bool {
        tickets_of(self.waiting).contains(ticket as int)
    }

    /// The ticket a new waiter gets: the smallest that no waiter holds.
    pub open spec fn is_fresh_ticket(self, ticket: u64) -> bool {
        &&& !self.holds_ticket(ticket)
        &&& forall|u: int| 0 <= u < ticket ==> #[trigger] tickets_of(self.waiting).contains(u)
    }

    /// Whether a task with this id is running.
    pub open spec fn is_running(self, id: Seq<char>) -> bool {
        self.running.contains(id)
    }

    /// Whether the submission with this ticket is first in line for a slot.
    pub open spec fn is_first_waiting(self, ticket: u64) -> bool {
        self.waiting.len() > 0 && self.waiting[0].0 == ticket
    }

    /// The task id of the submission first in line.
    pub open spec fn first_waiting_id(self) -> Seq<char> {
        self.waiting[0].1
    }

    /// Whether a new submission may take a slot at once: one is free and
    /// nobody waits for one.
    pub open spec fn can_start_now(self) -> bool {
        self.available > 0 && self.waiting.len() == 0
    }

    /// A task with this id (which does not run) takes a slot and is recorded
    /// as running.
    pub open spec fn start(self, id: Seq<char>) -> SchedulerView {
        SchedulerView {
            available: (self.available - 1) as nat,
            running: self.running.push(id),
            ..self
        }
    }

    /// A submission with this ticket and id joins the end of the line.
    pub open spec fn enqueue(self, ticket: u64, id: Seq<char>) -> SchedulerView {
        SchedulerView { waiting: self.waiting.push((ticket, id)), ..self }
    }

    /// The submission first in line leaves the line.
    pub open spec fn leave_line(self) -> SchedulerView {
        SchedulerView { waiting: self.waiting.drop_first(), ..self }
    }

    /// The waiting submission with this ticket gives up: its entry leaves the
    /// line and every other waiter keeps its order.
    pub open spec fn abandon(self, ticket: u64) -> SchedulerView {
        SchedulerView {
            waiting: match tickets_of(self.waiting).index_of_first(ticket as int) {
                Some(i) => self.waiting.remove(i),
                None => self.waiting,
            },
            ..self
        }
    }

    /// A task with this id has ended: where it ran, its record goes and its
    /// slot is free; any other id changes nothing.
    pub open spec fn complete(self, id: Seq<char>) -> SchedulerView {
        if self.running.contains(id) {
            SchedulerView {
                available: self.available + 1,
                running: self.running.remove_value(id),
                ..self
            }
        } else {
            self
        }
    }

    /// Every running task is cancelled: the records go and their slots are free.
    pub open spec fn cancel_all(self) -> SchedulerView {
        SchedulerView {
            available: self.available + self.running.len(),
            running: Seq::empty(),
            ..self
        }
    }

    /// The scheduler refuses new tasks from now on.
    pub open spec fn shut_down(self) -> SchedulerView {
        SchedulerView { is_shutdown: true, ..self }
    }
}

/// What a submission leads to when it is not refused.
#[derive(Debug, Clone, Copy, PartialEq, Eq, Structural)]
pub enum SubmitStep {
    /// The task took a free slot and is recorded as running: start its work.
    Started,
    /// No slot is free, or others wait for one before it: the submission
    /// joined the line with this ticket; wait until a running task ends, then
    /// ask again with `start_after_wait` (or give up with `abandon_wait`).
    WaitForPermit(u64),
}

/// What to do next while shutting down.
#[derive(Debug, Clone, Copy, PartialEq, Eq, Structural)]
pub enum ShutdownAction {
    /// No task runs any more: shutting down is done.
    Finished,
    /// Tasks still run: wait a moment and ask again.
    WaitAndPoll,
    /// Tasks still run and the time to wait is over: cancel them.
    CancelRemaining,
}

/// The bookkeeping of a task scheduler with a limit on how many tasks run at
/// once: the running tasks, the free slots, the line of submissions that wait
/// for a slot, and whether it has been shut down.
pub struct TaskScheduler {
    max_concurrency: usize,
    slots: Slots,
    waiting: Vec<(u64, String)>,
    is_shutdown: bool,
}

/// The running tasks and the free slots, which change together.
struct Slots {
    running: Vec<String>,
    available: usize,
}

impl View for TaskScheduler {
    type V = SchedulerView;

    closed spec fn view(&self) -> SchedulerView {
        SchedulerView {
            max_concurrency: self.max_concurrency as nat,
            available: self.slots.available as nat,
            running: ids_of(self.slots.running@),
            waiting: entries_of(self.waiting@),
            is_shutdown: self.is_shutdown,
        }
    }
}

/// Where the first entry equal to `id` stands in `v`, if there is one.
fn first_position(v: &Vec<String>, id: &String) -> (p: Option<usize>)
    ensures
        p == (match ids_of(v@).index_of_first(id@) {
            Some(i) => Some(i as usize),
            None => None::<usize>,
        }),
        p is Some ==> p->0 < v.len(),
{
    proof {
        ids_of(v@).index_of_first_ensures(id@);
    }
    let mut i: usize = 0;
    while i < v.len()
        invariant
            i <= v.len(),
            forall|j: int| 0 <= j < i ==> ids_of(v@)[j] != id@,
        decreases v.len() - i,
    {
        if v[i] == *id {
            proof {
                ids_of(v@).index_of_first_ensures(id@);
                assert(ids_of(v@)[i as int] == id@);
            }
            return Some(i);
        }
        i = i + 1;
    }
    None
}

/// Where the entry with this ticket stands in the line `v`, if there is one.
fn ticket_position(v: &Vec<(u64, String)>, ticket: u64) -> (p: Option<usize>)
    ensures
        p == (match tickets_of(entries_of(v@)).index_of_first(ticket as int) {
            Some(i) => Some(i as usize),
            None => None::<usize>,
        }),
        p is Some ==> p->0 < v.len(),
{
    let ghost t = tickets_of(entries_of(v@));
    proof {
        t.index_of_first_ensures(ticket as int);
    }
    let mut i: usize = 0;
    while i < v.len()
        invariant
            i <= v.len(),
            t == tickets_of(entries_of(v@)),
            forall|j: int| 0 <= j < i ==> t[j] != ticket as int,
        decreases v.len() - i,
    {
        if v[i].0 == ticket {
            proof {
                t.index_of_first_ensures(ticket as int);
                assert(t[i as int] == ticket as int);
            }
            return Some(i);
        }
        i = i + 1;
    }
    None
}

/// In a valid line, the entry holding a ticket is the first (and only) one
/// with that ticket.
pub(crate) proof fn lemma_ticket_at(s: SchedulerView, ticket: u64, i: int)
    requires
        s.valid(),
        0 <= i < s.waiting.len(),
        s.waiting[i].0 == ticket,
    ensures
        tickets_of(s.waiting).index_of_first(ticket as int) == Some(i),
{
    let t = tickets_of(s.waiting);
    t.index_of_first_ensures(ticket as int);
    assert(t[i] == ticket as int);
    let j = t.index_of_first(ticket as int).unwrap();
    assert(t[j] == t[i]);
}

/// Distinct tickets that cover every number below `k` are at least `k` many.
proof fn lemma_covered_range_fits(t: Seq<int>, k: int)
    requires
        t.no_duplicates(),
        0 <= k,
        forall|u: int| 0 <= u < k ==> #[trigger] t.contains(u),
    ensures
        k <= t.len(),
{
    broadcast use vstd::seq_lib::seq_to_set_is_finite;

    vstd::set_lib::lemma_int_range(0, k);
    assert(vstd::set_lib::set_int_range(0, k).subset_of(t.to_set())) by {
        assert forall|u: int| vstd::set_lib::set_int_range(0, k).contains(u) implies t.to_set().contains(u) by {
            assert(t.contains(u));
        }
    }
    vstd::set_lib::lemma_len_subset(vstd::set_lib::set_int_range(0, k), t.to_set());
    t.unique_seq_to_set();
}

impl TaskScheduler {
    #[verifier::type_invariant]
    closed spec fn inv(self) -> bool {
        self@.valid()
    }

    /// A scheduler that lets at most `max_concurrency` tasks run at once; the
    /// limit may be at most `MAX_PERMITS`.
    pub fn new(max_concurrency: usize) -> (s: Self)
        requires
            max_concurrency <= MAX_PERMITS,
        ensures
            s@ == SchedulerView::initial(max_concurrency as nat),
            s@.valid(),
    {
        let s = TaskScheduler {
            max_concurrency,
            slots: Slots { running: Vec::new(), available: max_concurrency },
            waiting: Vec::new(),
            is_shutdown: false,
        };
        assert(ids_of(s.slots.running@) =~= Seq::<Seq<char>>::empty());
        assert(entries_of(s.waiting@) =~= Seq::<(u64, Seq<char>)>::empty());
        s
    }

    /// Records a task with this id, which does not run, as running in a free slot.
    fn record_start(&mut self, task_id: String)
        requires
            old(self)@.available > 0,
            !old(self)@.is_running(task_id@),
        ensures
            final(self)@ == old(self)@.start(task_id@),
    {
        proof {
            use_type_invariant(&*self);
        }
        let mut slots = Slots { running: Vec::new(), available: self.max_concurrency };
        std::mem::swap(&mut slots, &mut self.slots);
        slots.running.push(task_id);
        slots.available = slots.available - 1;
        proof {
            assert(ids_of(slots.running@) =~= old(self)@.running.push(task_id@));
        }
        self.slots = slots;
    }

    /// The smallest ticket that no waiter holds.
    fn fresh_ticket(&self) -> (t: u64)
        ensures
            self@.is_fresh_ticket(t),
    {
        proof {
            use_type_invariant(self);
        }
        let ghost tickets = tickets_of(self@.waiting);
        let mut c: u64 = 0;
        while ticket_position(&self.waiting, c).is_some()
            invariant
                tickets == tickets_of(self@.waiting),
                tickets.no_duplicates(),
                tickets.len() == self.waiting.len(),
                c <= tickets.len(),
                forall|u: int| 0 <= u < c ==> #[trigger] tickets.contains(u),
            decreases tickets.len() - c,
        {
            proof {
                tickets.index_of_first_ensures(c as int);
                assert(tickets.contains(c as int));
                lemma_covered_range_fits(tickets, c + 1);
            }
            c = c + 1;
        }
        proof {
            tickets.index_of_first_ensures(c as int);
        }
        c
    }

    /// Appends a submission with a ticket no waiter holds to the end of the line.
    fn record_wait(&mut self, ticket: u64, task_id: String)
        requires
            !old(self)@.holds_ticket(ticket),
        ensures
            final(self)@ == old(self)@.enqueue(ticket, task_id@),
    {
        proof {
            use_type_invariant(&*self);
        }
        let mut waiting = Vec::new();
        std::mem::swap(&mut waiting, &mut self.waiting);
        waiting.push((ticket, task_id));
        proof {
            assert(entries_of(waiting@) =~= old(self)@.waiting.push((ticket, task_id@)));
            assert(tickets_of(entries_of(waiting@)) =~= tickets_of(old(self)@.waiting).push(
                ticket as int,
            ));
        }
        self.waiting = waiting;
    }

    /// Takes the entry at `i` out of the line and hands it back.
    fn remove_waiting(&mut self, i: usize) -> (e: (u64, String))
        requires
            i < old(self)@.waiting.len(),
        ensures
            final(self)@ == (SchedulerView {
                waiting: old(self)@.waiting.remove(i as int),
                ..old(self)@
            }),
            (e.0, e.1@) == old(self)@.waiting[i as int],
    {
        proof {
            use_type_invariant(&*self);
        }
        let mut waiting = Vec::new();
        std::mem::swap(&mut waiting, &mut self.waiting);
        let e = waiting.remove(i);
        proof {
            assert(entries_of(waiting@) =~= old(self)@.waiting.remove(i as int));
            assert(tickets_of(entries_of(waiting@)) =~= tickets_of(old(self)@.waiting).remove(
                i as int,
            ));
        }
        self.waiting = waiting;
        e
    }
}

impl TaskScheduler {
    /// Submits a task with this id. It is refused after shutdown, and while a
    /// task with its id runs. Otherwise it takes a free slot at once, where one
    /// is free and nobody waits before it; else it joins the end of the line
    /// with the smallest ticket that no waiter holds.
    pub fn submit(&mut self, task_id: String) -> (r: Result<SubmitStep, SchedulerError>)
        ensures
            final(self)@.valid(),
            r == Ok::<SubmitStep, SchedulerError>(SubmitStep::Started) ==> {
                &&& old(self)@.waiting.len() == 0
                &&& old(self)@.available > 0
                &&& final(self)@.running == old(self)@.running.push(task_id@)
                &&& final(self)@.available == old(self)@.available - 1
                &&& final(self)@.waiting == old(self)@.waiting
            },
            !old(self)@.is_shutdown && !old(self)@.is_running(task_id@) && old(self)@.waiting.len()
                > 0 ==> (r matches Ok(SubmitStep::WaitForPermit(t)) && final(self)@.waiting
                == old(self)@.waiting.push((t, task_id@)) && final(self)@.running
                == old(self)@.running && final(self)@.available == old(self)@.available),
            old(self)@.is_shutdown ==> r == Err::<SubmitStep, SchedulerError>(
                SchedulerError::Shutdown,
            ) && final(self)@ == old(self)@,
            !old(self)@.is_shutdown && old(self)@.is_running(task_id@) ==> r == Err::<
                SubmitStep,
                SchedulerError,
            >(SchedulerError::DuplicateTaskId(task_id)) && final(self)@ == old(self)@,
            !old(self)@.is_shutdown && !old(self)@.is_running(task_id@)
                && old(self)@.can_start_now() ==> r == Ok::<SubmitStep, SchedulerError>(
                SubmitStep::Started,
            ) && final(self)@ == old(self)@.start(task_id@),
            !old(self)@.is_shutdown && !old(self)@.is_running(task_id@)
                && !old(self)@.can_start_now() ==> (r matches Ok(SubmitStep::WaitForPermit(t))
                && old(self)@.is_fresh_ticket(t) && final(self)@ == old(self)@.enqueue(t, task_id@)),
    {
        proof {
            use_type_invariant(&*self);
        }
        if self.is_shutdown {
            return Err(SchedulerError::Shutdown);
        }
        let found = first_position(&self.slots.running, &task_id);
        proof {
            old(self)@.running.index_of_first_ensures(task_id@);
        }
        if found.is_some() {
            return Err(SchedulerError::DuplicateTaskId(task_id));
        }
        if self.slots.available > 0 && self.waiting.len() == 0 {
            self.record_start(task_id);
            proof {
                use_type_invariant(&*self);
            }
            Ok(SubmitStep::Started)
        } else {
            let ticket = self.fresh_ticket();
            self.record_wait(ticket, task_id);
            proof {
                use_type_invariant(&*self);
            }
            Ok(SubmitStep::WaitForPermit(ticket))
        }
    }

    /// Asks again for the waiting submission with this ticket. Only the one
    /// first in line gets an answer: it is refused (and leaves the line) while
    /// a task with its id runs, and otherwise it takes a free slot, where one
    /// is free, leaves the line and is recorded as running (`Ok(true)`). In
    /// every other case nothing changes and it waits on (`Ok(false)`).
    pub fn start_after_wait(&mut self, ticket: u64) -> (r: Result<bool, SchedulerError>)
        ensures
            final(self)@.valid(),
            !(old(self)@.waiting.len() > 0 && old(self)@.waiting[0].0 == ticket) ==> r == Ok::<
                bool,
                SchedulerError,
            >(false) && final(self)@ == old(self)@,
            r == Ok::<bool, SchedulerError>(true) ==> {
                &&& old(self)@.waiting.len() > 0
                &&& old(self)@.waiting[0].0 == ticket
                &&& final(self)@.running == old(self)@.running.push(old(self)@.waiting[0].1)
                &&& final(self)@.waiting == old(self)@.waiting.drop_first()
                &&& final(self)@.available == old(self)@.available - 1
            },
            r is Err ==> {
                &&& old(self)@.waiting.len() > 0
                &&& old(self)@.waiting[0].0 == ticket
                &&& old(self)@.running.contains(old(self)@.waiting[0].1)
                &&& final(self)@.waiting == old(self)@.waiting.drop_first()
                &&& final(self)@.running == old(self)@.running
                &&& final(self)@.available == old(self)@.available
            },
            !old(self)@.is_first_waiting(ticket) ==> r == Ok::<bool, SchedulerError>(false)
                && final(self)@ == old(self)@,
            old(self)@.is_first_waiting(ticket) && old(self)@.is_running(
                old(self)@.first_waiting_id(),
            ) ==> (r matches Err(SchedulerError::DuplicateTaskId(id))
                && id@ == old(self)@.first_waiting_id()) && final(self)@ == old(self)@.leave_line(),
            old(self)@.is_first_waiting(ticket) && !old(self)@.is_running(
                old(self)@.first_waiting_id(),
            ) && old(self)@.available > 0 ==> r == Ok::<bool, SchedulerError>(true)
                && final(self)@ == old(self)@.leave_line().start(old(self)@.first_waiting_id()),
            old(self)@.is_first_waiting(ticket) && !old(self)@.is_running(
                old(self)@.first_waiting_id(),
            ) && old(self)@.available == 0 ==> r == Ok::<bool, SchedulerError>(false)
                && final(self)@ == old(self)@,
    {
        proof {
            use_type_invariant(&*self);
        }
        if self.waiting.len() == 0 || self.waiting[0].0 != ticket {
            return Ok(false);
        }
        let found = first_position(&self.slots.running, &self.waiting[0].1);
        proof {
            old(self)@.running.index_of_first_ensures(old(self)@.first_waiting_id());
            assert(old(self)@.waiting.remove(0) =~= old(self)@.waiting.drop_first());
        }
        if found.is_some() {
            let (_, task_id) = self.remove_waiting(0);
            proof {
                use_type_invariant(&*self);
            }
            return Err(SchedulerError::DuplicateTaskId(task_id));
        }
        if self.slots.available == 0 {
            return Ok(false);
        }
        let (_, task_id) = self.remove_waiting(0);
        self.record_start(task_id);
        proof {
            use_type_invariant(&*self);
        }
        Ok(true)
    }

    /// The waiting submission with this ticket gives up its place in line.
    pub fn abandon_wait(&mut self, ticket: u64)
        ensures
            final(self)@.valid(),
            final(self)@ == old(self)@.abandon(ticket),
            forall|i: int|
                0 <= i < old(self)@.waiting.len() && (#[trigger] old(self)@.waiting[i]).0 == ticket
                    ==> final(self)@.waiting == old(self)@.waiting.remove(i),
            !tickets_of(old(self)@.waiting).contains(ticket as int) ==> final(self)@ == old(self)@,
            final(self)@.running == old(self)@.running,
            final(self)@.available == old(self)@.available,
            final(self)@.is_shutdown == old(self)@.is_shutdown,
    {
        proof {
            use_type_invariant(&*self);
        }
        proof {
            tickets_of(old(self)@.waiting).index_of_first_ensures(ticket as int);
            assert forall|i: int|
                0 <= i < old(self)@.waiting.len() && (#[trigger] old(self)@.waiting[i]).0
                    == ticket implies tickets_of(old(self)@.waiting).index_of_first(ticket as int)
                == Some(i) by {
                lemma_ticket_at(old(self)@, ticket, i);
            }
        }
        match ticket_position(&self.waiting, ticket) {
            Some(i) => {
                assert(tickets_of(old(self)@.waiting).index_of_first(ticket as int) == Some(i as int));
                self.remove_waiting(i);
            },
            None => {},
        }
        proof {
            use_type_invariant(&*self);
        }
    }

    /// A task with this id has ended: where it ran, its record goes and the
    /// slot it held is free again; for any other id nothing changes.
    pub fn complete(&mut self, task_id: &String)
        ensures
            final(self)@.valid(),
            final(self)@ == old(self)@.complete(task_id@),
    {
        proof {
            use_type_invariant(&*self);
            old(self)@.running.index_of_first_ensures(task_id@);
        }
        let found = first_position(&self.slots.running, task_id);
        match found {
            Some(i) => {
                let mut slots = Slots { running: Vec::new(), available: self.max_concurrency };
                std::mem::swap(&mut slots, &mut self.slots);
                slots.running.remove(i);
                slots.available = slots.available + 1;
                proof {
                    assert(ids_of(slots.running@) =~= old(self)@.running.remove(i as int));
                    old(self)@.running.remove_ensures(i as int);
                }
                self.slots = slots;
            },
            None => {},
        }
    }
}

impl TaskScheduler {
    /// Cancels every running task: hands back their ids, in the order in which
    /// they started, drops the records and frees their slots.
    pub fn cancel_all_tasks(&mut self) -> (cancelled: Vec<String>)
        ensures
            final(self)@.valid(),
            ids_of(cancelled@) == old(self)@.running,
            final(self)@ == old(self)@.cancel_all(),
    {
        proof {
            use_type_invariant(&*self);
        }
        let mut slots = Slots { running: Vec::new(), available: self.max_concurrency };
        proof {
            assert(ids_of(slots.running@) =~= Seq::<Seq<char>>::empty());
        }
        std::mem::swap(&mut slots, &mut self.slots);
        slots.running
    }

    /// Shuts the scheduler down: from now on it refuses every new task. The
    /// tasks that run go on.
    pub fn shutdown(&mut self)
        ensures
            final(self)@.valid(),
            final(self)@ == old(self)@.shut_down(),
            final(self)@.is_shutdown,
            final(self)@.waiting == old(self)@.waiting,
            final(self)@.running == old(self)@.running,
            final(self)@.available == old(self)@.available,
            final(self)@.max_concurrency == old(self)@.max_concurrency,
    {
        proof {
            use_type_invariant(&*self);
        }
        self.is_shutdown = true;
    }

    /// While shutting down: done where no task runs; where tasks run, cancel
    /// them if the time to wait for them is over, else wait and ask again.
    pub fn shutdown_step(&self, deadline_passed: bool) -> (action: ShutdownAction)
        ensures
            self@.valid(),
            action == (if self@.running.len() == 0 {
                ShutdownAction::Finished
            } else if deadline_passed {
                ShutdownAction::CancelRemaining
            } else {
                ShutdownAction::WaitAndPoll
            }),
    {
        proof {
            use_type_invariant(self);
        }
        if self.slots.running.len() == 0 {
            ShutdownAction::Finished
        } else if deadline_passed {
            ShutdownAction::CancelRemaining
        } else {
            ShutdownAction::WaitAndPoll
        }
    }

    /// How many tasks run: each started and not ended, each with its own id.
    pub fn running_count(&self) -> (n: usize)
        ensures
            self@.valid(),
            n == self@.running.len(),
            n <= self@.max_concurrency,
    {
        proof {
            use_type_invariant(self);
        }
        self.slots.running.len()
    }

    /// `Running` for the id of a running task; nothing for any other id.
    pub fn get_task_status(&self, task_id: &str) -> (status: Option<TaskStatus>)
        ensures
            self@.valid(),
            status == (if self@.is_running(task_id@) {
                Some(TaskStatus::Running)
            } else {
                None
            }),
    {
        proof {
            use_type_invariant(self);
        }
        let key = task_id.to_owned();
        proof {
            self@.running.index_of_first_ensures(key@);
        }
        if first_position(&self.slots.running, &key).is_some() {
            Some(TaskStatus::Running)
        } else {
            None
        }
    }

    /// The ids of the running tasks, each once, in the order in which they started.
    pub fn get_running_task_ids(&self) -> (ids: Vec<String>)
        ensures
            self@.valid(),
            ids_of(ids@) == self@.running,
            ids_of(ids@).no_duplicates(),
    {
        proof {
            use_type_invariant(self);
        }
        let mut ids: Vec<String> = Vec::new();
        let mut i: usize = 0;
        while i < self.slots.running.len()
            invariant
                i <= self.slots.running.len(),
                ids_of(ids@) =~= ids_of(self.slots.running@).take(i as int),
            decreases self.slots.running.len() - i,
        {
            ids.push(self.slots.running[i].clone());
            proof {
                assert(ids_of(self.slots.running@).take(i + 1) =~= ids_of(self.slots.running@).take(
                    i as int,
                ).push(self.slots.running@[i as int]@));
            }
            i = i + 1;
        }
        proof {
            assert(ids_of(self.slots.running@).take(i as int) =~= ids_of(self.slots.running@));
        }
        ids
    }

    /// How many submissions wait for a slot.
    pub fn waiting_count(&self) -> (n: usize)
        ensures
            self@.valid(),
            n == self@.waiting.len(),
    {
        proof {
            use_type_invariant(self);
        }
        self.waiting.len()
    }

    /// How many tasks may run at once.
    pub fn max_concurrency(&self) -> (n: usize)
        ensures
            self@.valid(),
            n == self@.max_concurrency,
    {
        proof {
            use_type_invariant(self);
        }
        self.max_concurrency
    }

    /// How many slots are free.
    pub fn available_permits(&self) -> (n: usize)
        ensures
            self@.valid(),
            n == self@.available,
    {
        proof {
            use_type_invariant(self);
        }
        self.slots.available
    }

    /// Whether the scheduler has been shut down.
    pub fn is_shutdown(&self) -> (b: bool)
        ensures
            self@.valid(),
            b == self@.is_shutdown,
    {
        proof {
            use_type_invariant(self);
        }
        self.is_shutdown
    }
}

} // verus!
