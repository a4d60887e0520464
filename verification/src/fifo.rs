//! Single-queue FIFO dispatcher: the manager only ever dispatches the head of
//! the queue, and only once the head fits into the pool (a free worker and
//! enough CPU headroom under the cap). No skip-ahead, no re-queueing.
use vstd::prelude::*;
use crate::task::{Kind, Task, Next, count_kind, lemma_count_push, lemma_count_drop_first, lemma_count_bounded};

verus! {

/// The pending tasks in arrival order, with per-kind counts kept beside them
/// so that a monitor can read them without walking the queue.
pub struct ManagerQueue {
    pub queue: std::collections::VecDeque<Task>,
    pub closed: bool,
    pub io_count: usize,
    pub cpu_count: usize,
}

/// One pop from a queue holding `q`: the head if there is one, else `Done`
/// once closed and `Wait` while more may come; and the queue left behind.
pub open spec fn fifo_pop(q: Seq<Task>, closed: bool) -> (Next<Task>, Seq<Task>) {
    if q.len() > 0 {
        (Next::Ready(q[0]), q.drop_first())
    } else if closed {
        (Next::Done, q)
    } else {
        (Next::Wait, q)
    }
}

/// The results of `k` pops in a row, and the queue left behind.
pub open spec fn fifo_pops(q: Seq<Task>, closed: bool, k: nat) -> (Seq<Next<Task>>, Seq<Task>)
    decreases k,
{
    if k == 0 {
        (Seq::empty(), q)
    } else {
        let (r, q1) = fifo_pop(q, closed);
        let rest = fifo_pops(q1, closed, (k - 1) as nat);
        (seq![r] + rest.0, rest.1)
    }
}

impl ManagerQueue {
    /// The counts equal the number of queued tasks of each kind.
    pub open spec fn wf(&self) -> bool {
        &&& self.io_count == count_kind(self.queue@, Kind::Io)
        &&& self.cpu_count == count_kind(self.queue@, Kind::Cpu)
    }

    pub fn new() -> (q: ManagerQueue)
        ensures
            q.wf(),
            q.queue@ == Seq::<Task>::empty(),
            !q.closed,
    {
        ManagerQueue { queue: std::collections::VecDeque::new(), closed: false, io_count: 0, cpu_count: 0 }
    }

    /// Appends a task at the back.
    pub fn push(&mut self, t: Task)
        requires
            old(self).wf(),
            old(self).queue@.len() < usize::MAX,
        ensures
            final(self).wf(),
            final(self).queue@ == old(self).queue@.push(t),
            final(self).closed == old(self).closed,
    {
        proof {
            lemma_count_push(self.queue@, t, Kind::Io);
            lemma_count_push(self.queue@, t, Kind::Cpu);
            lemma_count_bounded(self.queue@, Kind::Io);
        }
        match t.kind {
            Kind::Io => self.io_count = self.io_count + 1,
            Kind::Cpu => self.cpu_count = self.cpu_count + 1,
        }
        self.queue.push_back(t);
    }

    /// Marks that no more tasks will come.
    pub fn close(&mut self)
        ensures
            final(self).queue@ == old(self).queue@,
            final(self).closed,
            final(self).io_count == old(self).io_count,
            final(self).cpu_count == old(self).cpu_count,
    {
        self.closed = true;
    }

    /// The head of the queue if there is one; otherwise `Done` once the queue
    /// is closed, `Wait` while more tasks may still come.
    pub fn pop_head_or_done(&mut self) -> (r: Next<Task>)
        requires
            old(self).wf(),
        ensures
            final(self).wf(),
            final(self).closed == old(self).closed,
            old(self).queue@.len() > 0 ==> r == Next::Ready(old(self).queue@[0])
                && final(self).queue@ == old(self).queue@.drop_first(),
            old(self).queue@.len() == 0 ==> final(self).queue@ == old(self).queue@
                && r == (if old(self).closed { Next::<Task>::Done } else { Next::<Task>::Wait }),
            (r, final(self).queue@) == fifo_pop(old(self).queue@, old(self).closed),
    {
        if self.queue.len() > 0 {
            proof {
                lemma_count_drop_first(self.queue@, Kind::Io);
                lemma_count_drop_first(self.queue@, Kind::Cpu);
            }
            let t = self.queue.pop_front().unwrap();
            match t.kind {
                Kind::Io => self.io_count = self.io_count - 1,
                Kind::Cpu => self.cpu_count = self.cpu_count - 1,
            }
            Next::Ready(t)
        } else if self.closed {
            Next::Done
        } else {
            Next::Wait
        }
    }

    /// (queued IO tasks, queued CPU tasks).
    pub fn lens_by_kind(&self) -> (r: (usize, usize))
        requires
            self.wf(),
        ensures
            r == (count_kind(self.queue@, Kind::Io) as usize, count_kind(self.queue@, Kind::Cpu) as usize),
    {
        (self.io_count, self.cpu_count)
    }
}

/// Once the queue is closed, popping it `q.len() + 1` times hands out every
/// queued task exactly once, in the order they were pushed whatever their
/// kinds, then reports `Done` with the queue (and so both per-kind counts)
/// empty.
pub proof fn lemma_fifo_pops_in_push_order(q: Seq<Task>)
    ensures
        fifo_pops(q, true, q.len() + 1).0 == q.map_values(|t: Task| Next::Ready(t)).push(Next::<Task>::Done),
        fifo_pops(q, true, q.len() + 1).1 == Seq::<Task>::empty(),
        count_kind(fifo_pops(q, true, q.len() + 1).1, Kind::Io) == 0,
        count_kind(fifo_pops(q, true, q.len() + 1).1, Kind::Cpu) == 0,
    decreases q.len(),
{
    if q.len() == 0 {
        let r = fifo_pops(q, true, 1);
        assert(fifo_pops(q, true, 0).0 == Seq::<Next<Task>>::empty());
        assert(r.0 =~= q.map_values(|t: Task| Next::Ready(t)).push(Next::<Task>::Done));
    } else {
        lemma_fifo_pops_in_push_order(q.drop_first());
        let rest = fifo_pops(q.drop_first(), true, q.len() as nat);
        assert(fifo_pops(q, true, q.len() + 1).0 == seq![Next::Ready(q[0])] + rest.0);
        assert(q.drop_first().map_values(|t: Task| Next::Ready(t)).push(Next::<Task>::Done) == rest.0);
        assert(fifo_pops(q, true, q.len() + 1).0 =~= q.map_values(|t: Task| Next::Ready(t)).push(
            Next::<Task>::Done,
        ));
    }
}

/// Global CPU use and busy workers, booked together against the cap.
#[derive(Debug, Clone, Copy, PartialEq, Eq, Structural)]
pub struct PoolState {
    pub cpu_used: u32,
    pub busy_workers: usize,
    pub cap: u32,
    pub n_workers: usize,
}

impl PoolState {
    /// The cap and the worker count are never exceeded.
    pub open spec fn wf(&self) -> bool {
        self.cpu_used <= self.cap && self.busy_workers <= self.n_workers
    }

    /// Whether a task of this cost fits now.
    pub open spec fn can_book(&self, cost: u32) -> bool {
        self.cpu_used + cost <= self.cap && self.busy_workers < self.n_workers
    }

    pub open spec fn booked(self, cost: u32) -> PoolState {
        PoolState { cpu_used: (self.cpu_used + cost) as u32, busy_workers: (self.busy_workers + 1) as usize, ..self }
    }

    pub open spec fn released(self, cost: u32) -> PoolState {
        PoolState {
            cpu_used: if self.cpu_used >= cost { (self.cpu_used - cost) as u32 } else { 0 },
            busy_workers: if self.busy_workers >= 1 { (self.busy_workers - 1) as usize } else { 0 },
            ..self
        }
    }

    pub fn new(cap: u32, n_workers: usize) -> (p: PoolState)
        ensures
            p.wf(),
            p == (PoolState { cpu_used: 0, busy_workers: 0, cap, n_workers }),
    {
        PoolState { cpu_used: 0, busy_workers: 0, cap, n_workers }
    }

    /// Books CPU and a worker slot for a task of this cost if both fit, and
    /// says whether it did; when it does not fit nothing changes and the
    /// caller waits for a release.
    pub fn book_for(&mut self, task_cost: u32) -> (r: bool)
        requires
            old(self).cpu_used + task_cost <= u32::MAX,
        ensures
            r == old(self).can_book(task_cost),
            *final(self) == if r { old(self).booked(task_cost) } else { *old(self) },
    {
        let fits_cpu = self.cpu_used + task_cost <= self.cap;
        let has_worker = self.busy_workers < self.n_workers;
        if fits_cpu && has_worker {
            self.cpu_used = self.cpu_used + task_cost;
            self.busy_workers = self.busy_workers + 1;
            true
        } else {
            false
        }
    }

    /// Gives back the CPU and the slot of a finished task (never below zero).
    pub fn release(&mut self, task_cost: u32)
        ensures
            *final(self) == old(self).released(task_cost),
    {
        self.cpu_used = self.cpu_used.saturating_sub(task_cost);
        self.busy_workers = self.busy_workers.saturating_sub(1);
    }

    /// (CPU in use, busy workers).
    pub fn snapshot(&self) -> (r: (u32, usize))
        ensures
            r == (self.cpu_used, self.busy_workers),
    {
        (self.cpu_used, self.busy_workers)
    }
}

/// A booking that succeeded is undone exactly by the release of the same cost.
pub proof fn lemma_release_undoes_book(p: PoolState, cost: u32)
    requires
        p.can_book(cost),
    ensures
        p.booked(cost).released(cost) == p,
{
}

/// Booking and releasing keep the pool within its cap and worker count.
pub proof fn lemma_pool_stays_within_cap(p: PoolState, cost: u32)
    requires
        p.wf(),
    ensures
        p.can_book(cost) ==> p.booked(cost).wf(),
        p.released(cost).wf(),
{
}

/// What the manager does next.
#[derive(Debug, Clone, Copy, PartialEq, Eq, Structural)]
pub enum ManagerAction {
    /// The task goes to a worker now.
    Send(Task),
    /// Nothing can go now; wait for a push, a close or a release.
    Wait,
    /// The queue is closed and drained.
    Stop,
}

/// One round of the FIFO manager on queue `q`, the held task and the pool:
/// the task it works on is the held one, else the head of the queue (taken
/// off it). That task is booked and sent if it fits the pool, else held;
/// with no task the manager stops once the queue is closed and waits
/// otherwise. Gives the action, the queue, the held task and the pool after.
pub open spec fn manager_round(q: Seq<Task>, closed: bool, held: Option<Task>, pool: PoolState) -> (
    ManagerAction,
    Seq<Task>,
    Option<Task>,
    PoolState,
) {
    let (cand, rest) = if held is Some {
        (held, q)
    } else if q.len() > 0 {
        (Some(q[0]), q.drop_first())
    } else {
        (None::<Task>, q)
    };
    match cand {
        Some(t) => if pool.can_book(t.cpu_cost) {
            (ManagerAction::Send(t), rest, None::<Task>, pool.booked(t.cpu_cost))
        } else {
            (ManagerAction::Wait, rest, Some(t), pool)
        },
        None => (if closed { ManagerAction::Stop } else { ManagerAction::Wait }, rest, None::<Task>, pool),
    }
}

/// What the manager and its surroundings do between rounds: the generator
/// pushes a task, or a round runs on the pool as the workers' releases have
/// left it.
pub enum FifoEvent {
    Push(Task),
    Round(PoolState),
}

/// The task sent by an action, as a sequence of zero or one tasks.
pub open spec fn sent_by(a: ManagerAction) -> Seq<Task> {
    match a {
        ManagerAction::Send(t) => seq![t],
        _ => Seq::empty(),
    }
}

pub open spec fn held_seq(h: Option<Task>) -> Seq<Task> {
    match h {
        Some(t) => seq![t],
        None => Seq::empty(),
    }
}

/// The tasks the events push, in order.
pub open spec fn pushed_by(events: Seq<FifoEvent>) -> Seq<Task>
    decreases events.len(),
{
    if events.len() == 0 {
        Seq::empty()
    } else {
        (match events[0] {
            FifoEvent::Push(t) => seq![t],
            FifoEvent::Round(_) => Seq::empty(),
        }) + pushed_by(events.drop_first())
    }
}

/// Runs the events from queue `q` and held task `held`: the tasks sent, in
/// order, then the queue and the held task at the end.
pub open spec fn fifo_run(q: Seq<Task>, closed: bool, held: Option<Task>, events: Seq<FifoEvent>) -> (
    Seq<Task>,
    Seq<Task>,
    Option<Task>,
)
    decreases events.len(),
{
    if events.len() == 0 {
        (Seq::empty(), q, held)
    } else {
        match events[0] {
            FifoEvent::Push(t) => fifo_run(q.push(t), closed, held, events.drop_first()),
            FifoEvent::Round(pool) => {
                let (a, q1, h1, _) = manager_round(q, closed, held, pool);
                let rest = fifo_run(q1, closed, h1, events.drop_first());
                (sent_by(a) + rest.0, rest.1, rest.2)
            },
        }
    }
}

proof fn lemma_manager_round_conserves(q: Seq<Task>, closed: bool, held: Option<Task>, pool: PoolState)
    ensures
        ({
            let (a, q1, h1, _) = manager_round(q, closed, held, pool);
            sent_by(a) + held_seq(h1) + q1 == held_seq(held) + q
        }),
{
    let (a, q1, h1, _) = manager_round(q, closed, held, pool);
    if held is None && q.len() > 0 {
        assert(q =~= seq![q[0]] + q.drop_first());
    }
    assert(sent_by(a) + held_seq(h1) + q1 =~= held_seq(held) + q);
}

/// Whatever the pushes and the releases between rounds, the FIFO manager
/// sends the tasks in the order they were queued, each at most once, and
/// loses none: what it sent, then what it holds, then what is still queued
/// is exactly what was held and queued at the start followed by everything
/// pushed since. No task skips ahead and none is queued again.
#[verifier::spinoff_prover]
pub proof fn lemma_fifo_manager_sends_in_order(
    q: Seq<Task>,
    closed: bool,
    held: Option<Task>,
    events: Seq<FifoEvent>,
)
    ensures
        ({
            let (sent, q1, h1) = fifo_run(q, closed, held, events);
            sent + held_seq(h1) + q1 == held_seq(held) + q + pushed_by(events)
        }),
    decreases events.len(),
{
    if events.len() > 0 {
        let rest_events = events.drop_first();
        match events[0] {
            FifoEvent::Push(t) => {
                lemma_fifo_manager_sends_in_order(q.push(t), closed, held, rest_events);
                assert(pushed_by(events) == seq![t] + pushed_by(rest_events));
                assert(held_seq(held) + q.push(t) + pushed_by(rest_events) =~= held_seq(held) + q + pushed_by(
                    events,
                ));
            },
            FifoEvent::Round(pool) => {
                let (a, q1, h1, _) = manager_round(q, closed, held, pool);
                lemma_fifo_manager_sends_in_order(q1, closed, h1, rest_events);
                assert(pushed_by(events) =~= pushed_by(rest_events));
                let (sent, q2, h2) = fifo_run(q1, closed, h1, rest_events);
                lemma_manager_round_conserves(q, closed, held, pool);
                assert(sent_by(a) + sent + held_seq(h2) + q2 =~= sent_by(a) + (sent + held_seq(h2) + q2));
                assert(sent_by(a) + (held_seq(h1) + q1 + pushed_by(rest_events)) =~= (sent_by(a) + held_seq(h1)
                    + q1) + pushed_by(rest_events));
            },
        }
    }
}

/// One round of the FIFO manager. A task taken off the queue but not yet
/// booked is carried in `held` between rounds: the manager first takes the
/// head (if it holds nothing), then sends the held task as soon as it fits.
pub fn run_manager(queue: &mut ManagerQueue, pool: &mut PoolState, held: &mut Option<Task>) -> (a: ManagerAction)
    requires
        old(queue).wf(),
        *old(held) is Some ==> old(pool).cpu_used + (*old(held))->0.cpu_cost <= u32::MAX,
        *old(held) is None && old(queue).queue@.len() > 0 ==> old(pool).cpu_used + old(queue).queue@[0].cpu_cost
            <= u32::MAX,
    ensures
        final(queue).wf(),
        final(queue).closed == old(queue).closed,
        (a, final(queue).queue@, *final(held), *final(pool)) == manager_round(
            old(queue).queue@,
            old(queue).closed,
            *old(held),
            *old(pool),
        ),
{
    if held.is_none() {
        match queue.pop_head_or_done() {
            Next::Ready(t) => {
                *held = Some(t);
            },
            Next::Wait => {
                return ManagerAction::Wait;
            },
            Next::Done => {
                return ManagerAction::Stop;
            },
        }
    }
    let t = held.unwrap();
    if pool.book_for(t.cpu_cost) {
        *held = None;
        ManagerAction::Send(t)
    } else {
        ManagerAction::Wait
    }
}

} // verus!
