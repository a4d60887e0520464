//! Two lanes with CPU priority: each round the manager first tries to book
//! the CPU head, then the IO head, against the cap and the worker count, and
//! waits when neither could go. FIFO order holds within each lane.
use vstd::prelude::*;
use crate::task::{Kind, Task};

verus! {

/// The IO lane, the CPU lane, and whether the generator has finished.
pub struct TwoQueues {
    pub io: std::collections::VecDeque<Task>,
    pub cpu: std::collections::VecDeque<Task>,
    pub closed: bool,
}

impl TwoQueues {
    /// Each lane holds only tasks of its own kind.
    pub open spec fn wf(&self) -> bool {
        &&& forall|i: int| 0 <= i < self.io@.len() ==> (#[trigger] self.io@[i]).kind == Kind::Io
        &&& forall|i: int| 0 <= i < self.cpu@.len() ==> (#[trigger] self.cpu@[i]).kind == Kind::Cpu
    }

    pub fn new() -> (q: TwoQueues)
        ensures
            q.wf(),
            q.io@ == Seq::<Task>::empty(),
            q.cpu@ == Seq::<Task>::empty(),
            !q.closed,
    {
        TwoQueues { io: std::collections::VecDeque::new(), cpu: std::collections::VecDeque::new(), closed: false }
    }

    /// Routes the task to the lane of its kind.
    pub fn push(&mut self, t: Task)
        requires
            old(self).wf(),
        ensures
            final(self).wf(),
            final(self).closed == old(self).closed,
            t.kind == Kind::Io ==> final(self).io@ == old(self).io@.push(t) && final(self).cpu@ == old(self).cpu@,
            t.kind == Kind::Cpu ==> final(self).cpu@ == old(self).cpu@.push(t) && final(self).io@ == old(self).io@,
    {
        match t.kind {
            Kind::Io => self.io.push_back(t),
            Kind::Cpu => self.cpu.push_back(t),
        }
    }

    pub fn close(&mut self)
        requires
            old(self).wf(),
        ensures
            final(self).wf(),
            final(self).closed,
            final(self).io@ == old(self).io@,
            final(self).cpu@ == old(self).cpu@,
    {
        self.closed = true;
    }

    pub fn is_closed(&self) -> (r: bool)
        ensures
            r == self.closed,
    {
        self.closed
    }

    /// Costs of the two heads (IO, CPU); `None` for an empty lane.
    pub fn peek_heads(&self) -> (r: (Option<u32>, Option<u32>))
        ensures
            r.0 == (if self.io@.len() > 0 { Some(self.io@[0].cpu_cost) } else { None }),
            r.1 == (if self.cpu@.len() > 0 { Some(self.cpu@[0].cpu_cost) } else { None }),
    {
        let io = if self.io.len() > 0 { Some(self.io[0].cpu_cost) } else { None };
        let cpu = if self.cpu.len() > 0 { Some(self.cpu[0].cpu_cost) } else { None };
        (io, cpu)
    }

    pub fn pop_io(&mut self) -> (r: Option<Task>)
        requires
            old(self).wf(),
        ensures
            final(self).wf(),
            final(self).closed == old(self).closed,
            final(self).cpu@ == old(self).cpu@,
            old(self).io@.len() > 0 ==> r == Some(old(self).io@[0]) && final(self).io@ == old(self).io@.drop_first(),
            old(self).io@.len() == 0 ==> r is None && final(self).io@ == old(self).io@,
    {
        self.io.pop_front()
    }

    pub fn pop_cpu(&mut self) -> (r: Option<Task>)
        requires
            old(self).wf(),
        ensures
            final(self).wf(),
            final(self).closed == old(self).closed,
            final(self).io@ == old(self).io@,
            old(self).cpu@.len() > 0 ==> r == Some(old(self).cpu@[0]) && final(self).cpu@
                == old(self).cpu@.drop_first(),
            old(self).cpu@.len() == 0 ==> r is None && final(self).cpu@ == old(self).cpu@,
    {
        self.cpu.pop_front()
    }

    pub fn both_empty(&self) -> (r: bool)
        ensures
            r == (self.io@.len() == 0 && self.cpu@.len() == 0),
    {
        self.io.len() == 0 && self.cpu.len() == 0
    }

    /// (queued IO, queued CPU).
    pub fn lens(&self) -> (r: (usize, usize))
        ensures
            r.0 == self.io@.len(),
            r.1 == self.cpu@.len(),
    {
        (self.io.len(), self.cpu.len())
    }
}

/// Global CPU use and busy workers.
#[derive(Debug, Clone, Copy, PartialEq, Eq, Structural)]
pub struct PoolState {
    pub cpu_used: u32,
    pub busy_workers: usize,
    pub cap: u32,
    pub n_workers: usize,
}

impl PoolState {
    pub open spec fn wf(&self) -> bool {
        self.cpu_used <= self.cap && self.busy_workers <= self.n_workers
    }

    pub open spec fn can_book(&self, cost: u32) -> bool {
        self.cpu_used + cost <= self.cap && self.busy_workers < self.n_workers
    }

    pub open spec fn booked(self, cost: u32) -> PoolState {
        PoolState { cpu_used: (self.cpu_used + cost) as u32, busy_workers: (self.busy_workers + 1) as usize, ..self }
    }

    pub fn new(cap: u32, n_workers: usize) -> (p: PoolState)
        ensures
            p.wf(),
            p == (PoolState { cpu_used: 0, busy_workers: 0, cap, n_workers }),
    {
        PoolState { cpu_used: 0, busy_workers: 0, cap, n_workers }
    }

    /// Books CPU and a slot if both fit now, and says whether it did; never
    /// waits.
    pub fn try_book(&mut self, task_cost: u32) -> (r: bool)
        requires
            old(self).cpu_used + task_cost <= u32::MAX,
        ensures
            r == old(self).can_book(task_cost),
            *final(self) == if r { old(self).booked(task_cost) } else { *old(self) },
    {
        let fits_cpu = self.cpu_used + task_cost <= self.cap;
        let has_worker = self.busy_workers < self.n_workers;
        if fits_cpu && has_worker {
            self.cpu_used = self.cpu_used + task_cost;
            self.busy_workers = self.busy_workers + 1;
            true
        } else {
            false
        }
    }

    /// Gives back a finished task's CPU and slot (never below zero).
    pub fn release(&mut self, task_cost: u32)
        ensures
            *final(self) == (PoolState {
                cpu_used: if old(self).cpu_used >= task_cost { (old(self).cpu_used - task_cost) as u32 } else { 0 },
                busy_workers: if old(self).busy_workers >= 1 { (old(self).busy_workers - 1) as usize } else { 0 },
                ..*old(self)
            }),
    {
        self.cpu_used = self.cpu_used.saturating_sub(task_cost);
        self.busy_workers = self.busy_workers.saturating_sub(1);
    }

    pub fn snapshot(&self) -> (r: (u32, usize))
        ensures
            r == (self.cpu_used, self.busy_workers),
    {
        (self.cpu_used, self.busy_workers)
    }
}

/// The outcome of one manager round.
pub enum Round {
    /// These tasks are booked and go to workers, in this order.
    Send(Vec<Task>),
    /// Nothing could be booked; wait for a change.
    Wait,
    /// Closed and drained.
    Stop,
}

/// The pool after the CPU head has been tried.
pub open spec fn after_cpu_try(p: PoolState, cpu: Seq<Task>) -> PoolState {
    if cpu.len() > 0 && p.can_book(cpu[0].cpu_cost) { p.booked(cpu[0].cpu_cost) } else { p }
}

/// One manager round: stop when closed and both lanes are empty; otherwise
/// book and take the CPU head if it fits, then the IO head if it fits in
/// what is left; wait when neither went.
pub fn run_manager(queues: &mut TwoQueues, pool: &mut PoolState) -> (r: Round)
    requires
        old(queues).wf(),
        old(pool).wf(),
        old(queues).cpu@.len() > 0 ==> old(pool).cpu_used + old(queues).cpu@[0].cpu_cost <= u32::MAX,
        old(queues).io@.len() > 0 ==> after_cpu_try(*old(pool), old(queues).cpu@).cpu_used + old(
            queues,
        ).io@[0].cpu_cost <= u32::MAX,
    ensures
        final(queues).wf(),
        final(pool).wf(),
        final(queues).closed == old(queues).closed,
        ({
            let io = old(queues).io@;
            let cpu = old(queues).cpu@;
            let p1 = after_cpu_try(*old(pool), cpu);
            let cpu_went = cpu.len() > 0 && old(pool).can_book(cpu[0].cpu_cost);
            let io_went = io.len() > 0 && p1.can_book(io[0].cpu_cost);
            let sent = (if cpu_went { seq![cpu[0]] } else { Seq::<Task>::empty() }) + (if io_went {
                seq![io[0]]
            } else {
                Seq::<Task>::empty()
            });
            if old(queues).closed && io.len() == 0 && cpu.len() == 0 {
                r is Stop && *final(pool) == *old(pool) && final(queues).io@ == io && final(queues).cpu@ == cpu
            } else {
                &&& final(queues).cpu@ == (if cpu_went { cpu.drop_first() } else { cpu })
                &&& final(queues).io@ == (if io_went { io.drop_first() } else { io })
                &&& *final(pool) == (if io_went { p1.booked(io[0].cpu_cost) } else { p1 })
                &&& (sent.len() == 0 ==> r is Wait)
                &&& (sent.len() > 0 ==> (r matches Round::Send(v) && v@ == sent))
            }
        }),
{
    if queues.is_closed() && queues.both_empty() {
        return Round::Stop;
    }
    let (io_head, cpu_head) = queues.peek_heads();
    let mut dispatched: Vec<Task> = Vec::new();
    if let Some(cost) = cpu_head {
        if pool.try_book(cost) {
            let task = queues.pop_cpu().unwrap();
            dispatched.push(task);
        }
    }
    if let Some(cost) = io_head {
        if pool.try_book(cost) {
            let task = queues.pop_io().unwrap();
            dispatched.push(task);
        }
    }
    if dispatched.len() == 0 {
        Round::Wait
    } else {
        Round::Send(dispatched)
    }
}

} // verus!
