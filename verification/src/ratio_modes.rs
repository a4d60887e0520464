//! Two lanes with a ratio-based mode switch. While CPU work is queued the
//! manager keeps at most one CPU task running when IO waits at least six
//! times as much as CPU (drain-IO mode), else at most two (crunch-CPU mode),
//! and fills the remaining lanes with IO.
use vstd::prelude::*;
use crate::task::{Kind, Task, Next};

verus! {

/// The two pending lanes.
pub struct TwoDeques {
    pub io: std::collections::VecDeque<Task>,
    pub cpu: std::collections::VecDeque<Task>,
}

#[derive(Debug, Clone, Copy, PartialEq, Eq, Structural)]
pub enum Pick {
    Io,
    Cpu,
    Wait,
}

/// The dispatch rule over the lane lengths and the CPU tasks running.
pub open spec fn decide_spec(io: nat, cpu: nat, cpu_running: nat) -> Pick {
    if io == 0 && cpu == 0 {
        Pick::Wait
    } else if cpu == 0 {
        Pick::Io
    } else {
        let cpu_target: nat = if io >= 6 * cpu { 1 } else { 2 };
        if cpu_running < cpu_target {
            Pick::Cpu
        } else if io > 0 {
            Pick::Io
        } else {
            Pick::Wait
        }
    }
}

/// Chooses which lane to dispatch from (see `decide_spec`).
pub fn decide(g: &TwoDeques, cpu_running: usize) -> (p: Pick)
    ensures
        p == decide_spec(g.io@.len(), g.cpu@.len(), cpu_running as nat),
        p == Pick::Io ==> g.io@.len() > 0,
        p == Pick::Cpu ==> g.cpu@.len() > 0,
{
    let io = g.io.len();
    let cpu = g.cpu.len();
    if io == 0 && cpu == 0 {
        return Pick::Wait;
    }
    if cpu == 0 {
        return Pick::Io;
    }
    let drain_io_mode = io as u128 >= 6 * (cpu as u128);
    let cpu_target: usize = if drain_io_mode { 1 } else { 2 };
    if cpu_running < cpu_target {
        if cpu > 0 { Pick::Cpu } else { Pick::Io }
    } else {
        if io > 0 { Pick::Io } else { Pick::Wait }
    }
}

pub struct ManagerQueues {
    pub inner: TwoDeques,
    pub closed: bool,
}

impl ManagerQueues {
    /// Each lane holds only tasks of its own kind.
    pub open spec fn wf(&self) -> bool {
        &&& forall|i: int| 0 <= i < self.inner.io@.len() ==> (#[trigger] self.inner.io@[i]).kind == Kind::Io
        &&& forall|i: int| 0 <= i < self.inner.cpu@.len() ==> (#[trigger] self.inner.cpu@[i]).kind == Kind::Cpu
    }

    pub fn new() -> (q: ManagerQueues)
        ensures
            q.wf(),
            q.inner.io@ == Seq::<Task>::empty(),
            q.inner.cpu@ == Seq::<Task>::empty(),
            !q.closed,
    {
        ManagerQueues {
            inner: TwoDeques { io: std::collections::VecDeque::new(), cpu: std::collections::VecDeque::new() },
            closed: false,
        }
    }

    /// Appends the task to the lane of its kind.
    pub fn push(&mut self, t: Task)
        requires
            old(self).wf(),
        ensures
            final(self).wf(),
            final(self).closed == old(self).closed,
            t.kind == Kind::Io ==> final(self).inner.io@ == old(self).inner.io@.push(t)
                && final(self).inner.cpu@ == old(self).inner.cpu@,
            t.kind == Kind::Cpu ==> final(self).inner.cpu@ == old(self).inner.cpu@.push(t)
                && final(self).inner.io@ == old(self).inner.io@,
    {
        match t.kind {
            Kind::Io => self.inner.io.push_back(t),
            Kind::Cpu => self.inner.cpu.push_back(t),
        }
    }

    pub fn close(&mut self)
        requires
            old(self).wf(),
        ensures
            final(self).wf(),
            final(self).closed,
            final(self).inner.io@ == old(self).inner.io@,
            final(self).inner.cpu@ == old(self).inner.cpu@,
    {
        self.closed = true;
    }

    /// The task the rule picks, taken off its lane; when the rule says wait,
    /// `Done` if the generator has closed and both lanes are empty, else `Wait`.
    pub fn pick_next_or_done(&mut self, cpu_running: usize) -> (r: Next<Task>)
        requires
            old(self).wf(),
        ensures
            final(self).wf(),
            final(self).closed == old(self).closed,
            ({
                let io = old(self).inner.io@;
                let cpu = old(self).inner.cpu@;
                match decide_spec(io.len(), cpu.len(), cpu_running as nat) {
                    Pick::Io => r == Next::Ready(io[0]) && final(self).inner.io@ == io.drop_first()
                        && final(self).inner.cpu@ == cpu,
                    Pick::Cpu => r == Next::Ready(cpu[0]) && final(self).inner.cpu@ == cpu.drop_first()
                        && final(self).inner.io@ == io,
                    Pick::Wait => final(self).inner.io@ == io && final(self).inner.cpu@ == cpu && r == (if old(
                        self,
                    ).closed && io.len() == 0 && cpu.len() == 0 {
                        Next::<Task>::Done
                    } else {
                        Next::<Task>::Wait
                    }),
                }
            }),
    {
        match decide(&self.inner, cpu_running) {
            Pick::Io => Next::Ready(self.inner.io.pop_front().unwrap()),
            Pick::Cpu => Next::Ready(self.inner.cpu.pop_front().unwrap()),
            Pick::Wait => {
                if self.closed && self.inner.io.len() == 0 && self.inner.cpu.len() == 0 {
                    Next::Done
                } else {
                    Next::Wait
                }
            },
        }
    }

    /// (queued IO, queued CPU).
    pub fn lengths(&self) -> (r: (usize, usize))
        ensures
            r.0 == self.inner.io@.len(),
            r.1 == self.inner.cpu@.len(),
    {
        (self.inner.io.len(), self.inner.cpu.len())
    }

    /// Total queued tasks (capped at usize::MAX).
    pub fn total_len(&self) -> (r: usize)
        ensures
            r == if self.inner.io@.len() + self.inner.cpu@.len() <= usize::MAX {
                self.inner.io@.len() + self.inner.cpu@.len()
            } else {
                usize::MAX as nat
            },
    {
        self.inner.io.len().saturating_add(self.inner.cpu.len())
    }
}

/// CPU use, busy workers and running CPU tasks.
#[derive(Debug, Clone, Copy, PartialEq, Eq, Structural)]
pub struct PoolState {
    pub cpu_used: u32,
    pub busy_workers: usize,
    pub cpu_running: usize,
    pub cap: u32,
    pub n_workers: usize,
}

impl PoolState {
    pub open spec fn wf(&self) -> bool {
        self.cpu_used <= self.cap && self.busy_workers <= self.n_workers && self.cpu_running <= self.busy_workers
    }

    pub open spec fn can_book(&self, t: Task) -> bool {
        self.cpu_used + t.cpu_cost <= self.cap && self.busy_workers < self.n_workers
    }

    pub open spec fn booked(self, t: Task) -> PoolState {
        PoolState {
            cpu_used: (self.cpu_used + t.cpu_cost) as u32,
            busy_workers: (self.busy_workers + 1) as usize,
            cpu_running: if t.kind == Kind::Cpu { (self.cpu_running + 1) as usize } else { self.cpu_running },
            ..self
        }
    }

    pub open spec fn released(self, t: Task) -> PoolState {
        PoolState {
            cpu_used: if self.cpu_used >= t.cpu_cost { (self.cpu_used - t.cpu_cost) as u32 } else { 0 },
            busy_workers: if self.busy_workers >= 1 { (self.busy_workers - 1) as usize } else { 0 },
            cpu_running: if t.kind == Kind::Cpu {
                if self.cpu_running >= 1 { (self.cpu_running - 1) as usize } else { 0 }
            } else {
                self.cpu_running
            },
            ..self
        }
    }

    pub fn new(cap: u32, n_workers: usize) -> (p: PoolState)
        ensures
            p.wf(),
            p == (PoolState { cpu_used: 0, busy_workers: 0, cpu_running: 0, cap, n_workers }),
    {
        PoolState { cpu_used: 0, busy_workers: 0, cpu_running: 0, cap, n_workers }
    }

    /// Books the task if its CPU and a slot fit, and says whether it did.
    pub fn book_for(&mut self, task: &Task) -> (r: bool)
        requires
            old(self).wf(),
            old(self).cpu_used + task.cpu_cost <= u32::MAX,
        ensures
            final(self).wf(),
            r == old(self).can_book(*task),
            *final(self) == if r { old(self).booked(*task) } else { *old(self) },
    {
        let fits_cpu = self.cpu_used + task.cpu_cost <= self.cap;
        let has_worker = self.busy_workers < self.n_workers;
        if fits_cpu && has_worker {
            self.cpu_used = self.cpu_used + task.cpu_cost;
            self.busy_workers = self.busy_workers + 1;
            if task.kind == Kind::Cpu {
                self.cpu_running = self.cpu_running + 1;
            }
            true
        } else {
            false
        }
    }

    /// Gives back what a finished task booked (never below zero).
    pub fn release(&mut self, task: &Task)
        ensures
            *final(self) == old(self).released(*task),
    {
        self.cpu_used = self.cpu_used.saturating_sub(task.cpu_cost);
        self.busy_workers = self.busy_workers.saturating_sub(1);
        if task.kind == Kind::Cpu {
            self.cpu_running = self.cpu_running.saturating_sub(1);
        }
    }

    pub fn cpu_running(&self) -> (r: usize)
        ensures
            r == self.cpu_running,
    {
        self.cpu_running
    }

    pub fn snapshot(&self) -> (r: (u32, usize))
        ensures
            r == (self.cpu_used, self.busy_workers),
    {
        (self.cpu_used, self.busy_workers)
    }
}

/// Releasing a booked task restores the pool exactly.
pub proof fn lemma_release_undoes_book(p: PoolState, t: Task)
    requires
        p.wf(),
        p.can_book(t),
    ensures
        p.booked(t).released(t) == p,
{
}

/// Under the rule, the number of CPU tasks running never grows past two: a
/// CPU task is picked only while fewer than the mode's target (one or two)
/// are running.
pub proof fn lemma_cpu_pick_below_target(io: nat, cpu: nat, cpu_running: nat)
    requires
        decide_spec(io, cpu, cpu_running) == Pick::Cpu,
    ensures
        cpu_running < 2,
        io >= 6 * cpu ==> cpu_running < 1,
{
}

/// One round of the manager: a task the rule picked but that does not fit
/// yet is carried in `held`; the manager first picks (if it holds nothing)
/// and then sends the held task once it books.
pub fn run_manager(queues: &mut ManagerQueues, pool: &mut PoolState, held: &mut Option<Task>) -> (a:
    crate::fifo::ManagerAction)
    requires
        old(queues).wf(),
        old(pool).wf(),
        *old(held) is Some ==> old(pool).cpu_used + (*old(held))->0.cpu_cost <= u32::MAX,
        *old(held) is None ==> forall|i: int|
            0 <= i < old(queues).inner.io@.len() ==> old(pool).cpu_used + (#[trigger] old(queues).inner.io@[i]).cpu_cost
                <= u32::MAX,
        *old(held) is None ==> forall|i: int|
            0 <= i < old(queues).inner.cpu@.len() ==> old(pool).cpu_used + (#[trigger] old(queues).inner.cpu@[i]).cpu_cost
                <= u32::MAX,
    ensures
        final(queues).wf(),
        final(pool).wf(),
        final(queues).closed == old(queues).closed,
        ({
            let io = old(queues).inner.io@;
            let cpu = old(queues).inner.cpu@;
            let pick = decide_spec(io.len(), cpu.len(), old(pool).cpu_running as nat);
            let cand: Option<Task> = if *old(held) is Some {
                *old(held)
            } else {
                match pick {
                    Pick::Io => Some(io[0]),
                    Pick::Cpu => Some(cpu[0]),
                    Pick::Wait => None,
                }
            };
            &&& (*old(held) is Some ==> final(queues).inner.io@ == io && final(queues).inner.cpu@ == cpu)
            &&& (*old(held) is None && pick == Pick::Io ==> final(queues).inner.io@ == io.drop_first()
                && final(queues).inner.cpu@ == cpu)
            &&& (*old(held) is None && pick == Pick::Cpu ==> final(queues).inner.cpu@ == cpu.drop_first()
                && final(queues).inner.io@ == io)
            &&& (*old(held) is None && pick == Pick::Wait ==> final(queues).inner.io@ == io
                && final(queues).inner.cpu@ == cpu)
            &&& match cand {
                Some(t) => if old(pool).can_book(t) {
                    a == crate::fifo::ManagerAction::Send(t) && *final(pool) == old(pool).booked(t)
                        && *final(held) == None::<Task>
                } else {
                    a == crate::fifo::ManagerAction::Wait && *final(pool) == *old(pool) && *final(held) == Some(t)
                },
                None => *final(pool) == *old(pool) && *final(held) == None::<Task> && a == (if old(queues).closed
                    && io.len() == 0 && cpu.len() == 0 {
                    crate::fifo::ManagerAction::Stop
                } else {
                    crate::fifo::ManagerAction::Wait
                }),
            }
        }),
{
    if held.is_none() {
        let ghost io = queues.inner.io@;
        let ghost cpu = queues.inner.cpu@;
        match queues.pick_next_or_done(pool.cpu_running()) {
            Next::Ready(t) => {
                assert(t == io[0] || t == cpu[0]);
                *held = Some(t);
            },
            Next::Wait => {
                return crate::fifo::ManagerAction::Wait;
            },
            Next::Done => {
                return crate::fifo::ManagerAction::Stop;
            },
        }
    }
    let t = held.unwrap();
    if pool.book_for(&t) {
        *held = None;
        crate::fifo::ManagerAction::Send(t)
    } else {
        crate::fifo::ManagerAction::Wait
    }
}

} // verus!
