//! Target-state dispatch over two lanes. From the queue contents the manager
//! picks a target running mix (8 IO; 6 IO + 1 CPU; 3 IO + 2 CPU) and refuses
//! to start a task of a class that is already at its target, even when it
//! would fit; the refusal lets the running mix drift toward the target.
use vstd::prelude::*;
use crate::task::{Kind, Task};
use crate::cpu_first::{TwoQueues, Round};

verus! {

/// The running mix per class.
#[derive(Debug, Clone, Copy, PartialEq, Eq, Structural)]
pub struct Counters {
    pub cpu_used: u32,
    pub io_running: usize,
    pub cpu_running: usize,
}

impl Counters {
    pub fn busy_workers(&self) -> (r: usize)
        requires
            self.io_running + self.cpu_running <= usize::MAX,
        ensures
            r == self.io_running + self.cpu_running,
    {
        self.io_running + self.cpu_running
    }
}

/// A target running mix.
#[derive(Debug, Clone, Copy, PartialEq, Eq, Structural)]
pub struct Target {
    pub io: usize,
    pub cpu: usize,
}

/// The target for the queued counts: 8 + 0 with no CPU queued, 6 + 1 when IO
/// is queued at least six times as much as CPU, else 3 + 2.
pub open spec fn target_for(io_q: nat, cpu_q: nat) -> Target {
    if cpu_q == 0 {
        Target { io: 8, cpu: 0 }
    } else if io_q >= 6 * cpu_q {
        Target { io: 6, cpu: 1 }
    } else {
        Target { io: 3, cpu: 2 }
    }
}

pub fn choose_target(io_q: usize, cpu_q: usize) -> (t: Target)
    ensures
        t == target_for(io_q as nat, cpu_q as nat),
{
    if cpu_q == 0 {
        Target { io: 8, cpu: 0 }
    } else if io_q as u128 >= 6 * (cpu_q as u128) {
        Target { io: 6, cpu: 1 }
    } else {
        Target { io: 3, cpu: 2 }
    }
}

#[derive(Debug, Clone, Copy, PartialEq, Eq, Structural)]
pub struct PoolState {
    pub inner: Counters,
    pub cap: u32,
    pub n_workers: usize,
}

impl PoolState {
    /// Within the cap and the worker count.
    pub open spec fn wf(&self) -> bool {
        self.inner.cpu_used <= self.cap && self.inner.io_running + self.inner.cpu_running <= self.n_workers
    }

    pub open spec fn running_for(&self, kind: Kind) -> usize {
        match kind {
            Kind::Io => self.inner.io_running,
            Kind::Cpu => self.inner.cpu_running,
        }
    }

    /// The task physically fits and its class is under its target.
    pub open spec fn can_book(&self, kind: Kind, cost: u32, target_for_class: usize) -> bool {
        &&& self.inner.cpu_used + cost <= self.cap
        &&& self.inner.io_running + self.inner.cpu_running < self.n_workers
        &&& self.running_for(kind) < target_for_class
    }

    pub open spec fn booked(self, kind: Kind, cost: u32) -> PoolState {
        PoolState {
            inner: Counters {
                cpu_used: (self.inner.cpu_used + cost) as u32,
                io_running: if kind == Kind::Io { (self.inner.io_running + 1) as usize } else { self.inner.io_running },
                cpu_running: if kind == Kind::Cpu { (self.inner.cpu_running + 1) as usize } else { self.inner.cpu_running },
            },
            ..self
        }
    }

    pub fn new(cap: u32, n_workers: usize) -> (p: PoolState)
        ensures
            p.wf(),
            p == (PoolState { inner: Counters { cpu_used: 0, io_running: 0, cpu_running: 0 }, cap, n_workers }),
    {
        PoolState { inner: Counters { cpu_used: 0, io_running: 0, cpu_running: 0 }, cap, n_workers }
    }

    /// Books the task if it fits physically and its class is under target,
    /// and says whether it did.
    pub fn try_book_against_target(&mut self, kind: Kind, task_cost: u32, target_for_class: usize) -> (r: bool)
        requires
            old(self).wf(),
            old(self).inner.cpu_used + task_cost <= u32::MAX,
        ensures
            final(self).wf(),
            r == old(self).can_book(kind, task_cost, target_for_class),
            *final(self) == if r { old(self).booked(kind, task_cost) } else { *old(self) },
            r ==> final(self).running_for(kind) <= target_for_class,
    {
        let running_for_class = match kind {
            Kind::Io => self.inner.io_running,
            Kind::Cpu => self.inner.cpu_running,
        };
        let fits_cpu = self.inner.cpu_used + task_cost <= self.cap;
        let has_worker = self.inner.busy_workers() < self.n_workers;
        let under_target = running_for_class < target_for_class;
        if fits_cpu && has_worker && under_target {
            self.inner.cpu_used = self.inner.cpu_used + task_cost;
            match kind {
                Kind::Io => self.inner.io_running = self.inner.io_running + 1,
                Kind::Cpu => self.inner.cpu_running = self.inner.cpu_running + 1,
            }
            true
        } else {
            false
        }
    }

    /// Gives back a finished task's CPU and its class's slot (never below zero).
    pub fn release(&mut self, kind: Kind, task_cost: u32)
        requires
            old(self).wf(),
        ensures
            final(self).wf(),
            final(self).cap == old(self).cap,
            final(self).n_workers == old(self).n_workers,
            final(self).inner.cpu_used == if old(self).inner.cpu_used >= task_cost {
                (old(self).inner.cpu_used - task_cost) as u32
            } else {
                0
            },
            final(self).inner.io_running == if kind == Kind::Io && old(self).inner.io_running >= 1 {
                (old(self).inner.io_running - 1) as usize
            } else if kind == Kind::Io {
                0
            } else {
                old(self).inner.io_running
            },
            final(self).inner.cpu_running == if kind == Kind::Cpu && old(self).inner.cpu_running >= 1 {
                (old(self).inner.cpu_running - 1) as usize
            } else if kind == Kind::Cpu {
                0
            } else {
                old(self).inner.cpu_running
            },
    {
        self.inner.cpu_used = self.inner.cpu_used.saturating_sub(task_cost);
        match kind {
            Kind::Io => self.inner.io_running = self.inner.io_running.saturating_sub(1),
            Kind::Cpu => self.inner.cpu_running = self.inner.cpu_running.saturating_sub(1),
        }
    }

    /// (CPU in use, busy workers).
    pub fn snapshot(&self) -> (r: (u32, usize))
        requires
            self.wf(),
        ensures
            r == (self.inner.cpu_used, (self.inner.io_running + self.inner.cpu_running) as usize),
    {
        (self.inner.cpu_used, self.inner.busy_workers())
    }
}

/// Releasing a booked task of the same class and cost restores the pool.
pub proof fn lemma_release_undoes_book(p: PoolState, kind: Kind, cost: u32, target: usize)
    requires
        p.wf(),
        p.can_book(kind, cost, target),
    ensures
        ({
            let q = p.booked(kind, cost);
            &&& q.inner.cpu_used - cost == p.inner.cpu_used
            &&& q.running_for(kind) - 1 == p.running_for(kind)
            &&& q.running_for(if kind == Kind::Io { Kind::Cpu } else { Kind::Io }) == p.running_for(
                if kind == Kind::Io { Kind::Cpu } else { Kind::Io },
            )
        }),
{
}

/// The pool after the CPU head has been tried against its target.
pub open spec fn after_cpu_try(p: PoolState, cpu: Seq<Task>, t: Target) -> PoolState {
    if cpu.len() > 0 && p.can_book(Kind::Cpu, cpu[0].cpu_cost, t.cpu) {
        p.booked(Kind::Cpu, cpu[0].cpu_cost)
    } else {
        p
    }
}

/// One manager round: stop when closed and both lanes are empty; otherwise
/// choose the target from the lane lengths, then book and take the CPU head
/// if it fits and CPU is under target, then the IO head likewise; wait when
/// neither went.
pub fn run_manager(queues: &mut TwoQueues, pool: &mut PoolState) -> (r: Round)
    requires
        old(queues).wf(),
        old(pool).wf(),
        old(queues).cpu@.len() > 0 ==> old(pool).inner.cpu_used + old(queues).cpu@[0].cpu_cost <= u32::MAX,
        old(queues).io@.len() > 0 ==> after_cpu_try(
            *old(pool),
            old(queues).cpu@,
            target_for(old(queues).io@.len(), old(queues).cpu@.len()),
        ).inner.cpu_used + old(queues).io@[0].cpu_cost <= u32::MAX,
    ensures
        final(queues).wf(),
        final(pool).wf(),
        final(queues).closed == old(queues).closed,
        ({
            let io = old(queues).io@;
            let cpu = old(queues).cpu@;
            let t = target_for(io.len(), cpu.len());
            let p1 = after_cpu_try(*old(pool), cpu, t);
            let cpu_went = cpu.len() > 0 && old(pool).can_book(Kind::Cpu, cpu[0].cpu_cost, t.cpu);
            let io_went = io.len() > 0 && p1.can_book(Kind::Io, io[0].cpu_cost, t.io);
            let sent = (if cpu_went { seq![cpu[0]] } else { Seq::<Task>::empty() }) + (if io_went {
                seq![io[0]]
            } else {
                Seq::<Task>::empty()
            });
            if old(queues).closed && io.len() == 0 && cpu.len() == 0 {
                r is Stop && *final(pool) == *old(pool) && final(queues).io@ == io && final(queues).cpu@ == cpu
            } else {
                &&& final(queues).cpu@ == (if cpu_went { cpu.drop_first() } else { cpu })
                &&& final(queues).io@ == (if io_went { io.drop_first() } else { io })
                &&& *final(pool) == (if io_went { p1.booked(Kind::Io, io[0].cpu_cost) } else { p1 })
                &&& (sent.len() == 0 ==> r is Wait)
                &&& (sent.len() > 0 ==> (r matches Round::Send(v) && v@ == sent))
            }
        }),
{
    if queues.is_closed() && queues.both_empty() {
        return Round::Stop;
    }
    let (io_q, cpu_q) = queues.lens();
    let target = choose_target(io_q, cpu_q);
    let (io_head, cpu_head) = queues.peek_heads();
    let mut dispatched: Vec<Task> = Vec::new();
    if let Some(cost) = cpu_head {
        if pool.try_book_against_target(Kind::Cpu, cost, target.cpu) {
            let task = queues.pop_cpu().unwrap();
            dispatched.push(task);
        }
    }
    if let Some(cost) = io_head {
        if pool.try_book_against_target(Kind::Io, cost, target.io) {
            let task = queues.pop_io().unwrap();
            dispatched.push(task);
        }
    }
    if dispatched.len() == 0 {
        Round::Wait
    } else {
        Round::Send(dispatched)
    }
}

} // verus!
