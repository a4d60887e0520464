//! Two FIFO lanes (IO and CPU). The manager dispatches a head that fits the
//! free capacity; when both heads fit it takes the lane with the higher
//! backlog pressure relative to the configured IO/CPU mix. FIFO order holds
//! within each lane.
use vstd::prelude::*;
use crate::task::{Kind, Task};
use crate::fifo::ManagerAction;
use crate::signal::SchedulerSignal;

verus! {

/// The two pending lanes and whether the generator has finished.
pub struct ManagerQueue {
    pub io: std::collections::VecDeque<Task>,
    pub cpu: std::collections::VecDeque<Task>,
    pub closed: bool,
}

impl ManagerQueue {
    /// Each lane holds only tasks of its own kind.
    pub open spec fn wf(&self) -> bool {
        &&& forall|i: int| 0 <= i < self.io@.len() ==> (#[trigger] self.io@[i]).kind == Kind::Io
        &&& forall|i: int| 0 <= i < self.cpu@.len() ==> (#[trigger] self.cpu@[i]).kind == Kind::Cpu
    }

    pub fn new() -> (q: ManagerQueue)
        ensures
            q.wf(),
            q.io@ == Seq::<Task>::empty(),
            q.cpu@ == Seq::<Task>::empty(),
            !q.closed,
    {
        ManagerQueue {
            io: std::collections::VecDeque::new(),
            cpu: std::collections::VecDeque::new(),
            closed: false,
        }
    }

    /// Appends the task to the lane of its kind.
    pub fn push(&mut self, t: Task)
        requires
            old(self).wf(),
        ensures
            final(self).wf(),
            final(self).closed == old(self).closed,
            t.kind == Kind::Io ==> final(self).io@ == old(self).io@.push(t) && final(self).cpu@ == old(self).cpu@,
            t.kind == Kind::Cpu ==> final(self).cpu@ == old(self).cpu@.push(t) && final(self).io@ == old(self).io@,
    {
        match t.kind {
            Kind::Io => self.io.push_back(t),
            Kind::Cpu => self.cpu.push_back(t),
        }
    }

    pub fn close(&mut self)
        requires
            old(self).wf(),
        ensures
            final(self).wf(),
            final(self).closed,
            final(self).io@ == old(self).io@,
            final(self).cpu@ == old(self).cpu@,
    {
        self.closed = true;
    }

    /// The generator's push: appends the task to its lane (as `push`) and
    /// records the change on the signal, so that a waiting manager wakes.
    pub fn push_and_notify(&mut self, t: Task, signal: &mut SchedulerSignal)
        requires
            old(self).wf(),
            old(signal).version < u64::MAX,
        ensures
            final(self).wf(),
            final(self).closed == old(self).closed,
            t.kind == Kind::Io ==> final(self).io@ == old(self).io@.push(t) && final(self).cpu@ == old(self).cpu@,
            t.kind == Kind::Cpu ==> final(self).cpu@ == old(self).cpu@.push(t) && final(self).io@ == old(self).io@,
            final(signal).version == old(signal).version + 1,
    {
        self.push(t);
        signal.notify_change();
    }

    /// The generator's close: marks the lanes closed (as `close`) and records
    /// the change on the signal.
    pub fn close_and_notify(&mut self, signal: &mut SchedulerSignal)
        requires
            old(self).wf(),
            old(signal).version < u64::MAX,
        ensures
            final(self).wf(),
            final(self).closed,
            final(self).io@ == old(self).io@,
            final(self).cpu@ == old(self).cpu@,
            final(signal).version == old(signal).version + 1,
    {
        self.close();
        signal.notify_change();
    }

    /// Total queued tasks (capped at usize::MAX).
    pub fn len(&self) -> (r: usize)
        ensures
            r == if self.io@.len() + self.cpu@.len() <= usize::MAX {
                self.io@.len() + self.cpu@.len()
            } else {
                usize::MAX as nat
            },
    {
        self.io.len().saturating_add(self.cpu.len())
    }

    pub fn is_closed_and_empty(&self) -> (r: bool)
        ensures
            r == (self.closed && self.io@.len() == 0 && self.cpu@.len() == 0),
    {
        self.closed && self.io.len() == 0 && self.cpu.len() == 0
    }

    /// Takes one task that fits right now, without waiting: nothing without a
    /// free worker; otherwise the head of the only lane whose head fits into
    /// `cpu_room`, or, when both heads fit, the CPU head if the CPU backlog has
    /// at least the pressure of the IO backlog (`cpu_pressure_wins`, decided by
    /// the caller from the lane lengths and the target mix), else the IO head.
    pub fn pop_best_that_fits(&mut self, cpu_room: u32, has_free_worker: bool, cpu_pressure_wins: bool) -> (r:
        Option<Task>)
        requires
            old(self).wf(),
        ensures
            final(self).wf(),
            final(self).closed == old(self).closed,
            ({
                let io = old(self).io@;
                let cpu = old(self).cpu@;
                let io_fits = io.len() > 0 && io[0].cpu_cost <= cpu_room;
                let cpu_fits = cpu.len() > 0 && cpu[0].cpu_cost <= cpu_room;
                let take_cpu = cpu_fits && (!io_fits || cpu_pressure_wins);
                if !has_free_worker || (!io_fits && !cpu_fits) {
                    r == None::<Task> && final(self).io@ == io && final(self).cpu@ == cpu
                } else if take_cpu {
                    r == Some(cpu[0]) && final(self).cpu@ == cpu.drop_first() && final(self).io@ == io
                } else {
                    r == Some(io[0]) && final(self).io@ == io.drop_first() && final(self).cpu@ == cpu
                }
            }),
    {
        if !has_free_worker {
            return None;
        }
        let io_fits = self.io.len() > 0 && self.io[0].cpu_cost <= cpu_room;
        let cpu_fits = self.cpu.len() > 0 && self.cpu[0].cpu_cost <= cpu_room;
        if io_fits && cpu_fits {
            if cpu_pressure_wins {
                self.cpu.pop_front()
            } else {
                self.io.pop_front()
            }
        } else if io_fits {
            self.io.pop_front()
        } else if cpu_fits {
            self.cpu.pop_front()
        } else {
            None
        }
    }
}

/// Global CPU use and busy workers, checked and booked by the one manager.
#[derive(Debug, Clone, Copy, PartialEq, Eq, Structural)]
pub struct PoolState {
    pub cpu_used: u32,
    pub busy_workers: usize,
    pub cap: u32,
    pub n_workers: usize,
}

impl PoolState {
    pub open spec fn wf(&self) -> bool {
        self.cpu_used <= self.cap && self.busy_workers <= self.n_workers
    }

    pub fn new(cap: u32, n_workers: usize) -> (p: PoolState)
        ensures
            p.wf(),
            p == (PoolState { cpu_used: 0, busy_workers: 0, cap, n_workers }),
    {
        PoolState { cpu_used: 0, busy_workers: 0, cap, n_workers }
    }

    /// (CPU headroom under the cap, whether a worker is free).
    pub fn available(&self) -> (r: (u32, bool))
        ensures
            r == ((if self.cap >= self.cpu_used { (self.cap - self.cpu_used) as u32 } else { 0u32 }),
                self.busy_workers < self.n_workers),
    {
        (self.cap.saturating_sub(self.cpu_used), self.busy_workers < self.n_workers)
    }

    /// Books a task the manager already checked to fit.
    pub fn book_for(&mut self, task_cost: u32)
        requires
            old(self).cpu_used + task_cost <= old(self).cap,
            old(self).busy_workers < old(self).n_workers,
        ensures
            *final(self) == (PoolState {
                cpu_used: (old(self).cpu_used + task_cost) as u32,
                busy_workers: (old(self).busy_workers + 1) as usize,
                ..*old(self)
            }),
    {
        self.cpu_used = self.cpu_used + task_cost;
        self.busy_workers = self.busy_workers + 1;
    }

    /// Gives back a finished task's CPU and slot (never below zero).
    pub fn release(&mut self, task_cost: u32)
        ensures
            *final(self) == (PoolState {
                cpu_used: if old(self).cpu_used >= task_cost { (old(self).cpu_used - task_cost) as u32 } else { 0 },
                busy_workers: if old(self).busy_workers >= 1 { (old(self).busy_workers - 1) as usize } else { 0 },
                ..*old(self)
            }),
    {
        self.cpu_used = self.cpu_used.saturating_sub(task_cost);
        self.busy_workers = self.busy_workers.saturating_sub(1);
    }

    /// A worker's release: gives back the task's CPU and slot (as
    /// `release`) and records the change on the signal.
    pub fn release_and_notify(&mut self, task_cost: u32, signal: &mut SchedulerSignal)
        requires
            old(signal).version < u64::MAX,
        ensures
            *final(self) == (PoolState {
                cpu_used: if old(self).cpu_used >= task_cost { (old(self).cpu_used - task_cost) as u32 } else { 0 },
                busy_workers: if old(self).busy_workers >= 1 { (old(self).busy_workers - 1) as usize } else { 0 },
                ..*old(self)
            }),
            final(signal).version == old(signal).version + 1,
    {
        self.release(task_cost);
        signal.notify_change();
    }

    pub fn snapshot(&self) -> (r: (u32, usize))
        ensures
            r == (self.cpu_used, self.busy_workers),
    {
        (self.cpu_used, self.busy_workers)
    }
}

/// A task that `pop_best_that_fits` hands out for the pool's own `available`
/// figures can be booked, and booking it keeps the pool within its cap.
pub proof fn lemma_selected_task_fits(p: PoolState, t: Task)
    requires
        p.wf(),
        p.busy_workers < p.n_workers,
        t.cpu_cost <= (if p.cap >= p.cpu_used { (p.cap - p.cpu_used) as u32 } else { 0u32 }),
    ensures
        p.cpu_used + t.cpu_cost <= p.cap,
        (PoolState {
            cpu_used: (p.cpu_used + t.cpu_cost) as u32,
            busy_workers: (p.busy_workers + 1) as usize,
            ..p
        }).wf(),
{
}

/// The CPU headroom under the cap that `available` reports.
pub open spec fn room_of(p: PoolState) -> u32 {
    if p.cap >= p.cpu_used { (p.cap - p.cpu_used) as u32 } else { 0u32 }
}

/// The lane `pop_best_that_fits` takes from, if any: `Some(true)` for the
/// CPU lane, `Some(false)` for the IO lane.
pub open spec fn best_lane(io: Seq<Task>, cpu: Seq<Task>, room: u32, has_free: bool, cpu_pressure_wins: bool) -> Option<
    bool,
> {
    let io_fits = io.len() > 0 && io[0].cpu_cost <= room;
    let cpu_fits = cpu.len() > 0 && cpu[0].cpu_cost <= room;
    if !has_free || (!io_fits && !cpu_fits) {
        None
    } else {
        Some(cpu_fits && (!io_fits || cpu_pressure_wins))
    }
}

pub open spec fn booked(p: PoolState, cost: u32) -> PoolState {
    PoolState { cpu_used: (p.cpu_used + cost) as u32, busy_workers: (p.busy_workers + 1) as usize, ..p }
}

/// One decision of the manager: it reads the pool's free capacity, takes
/// the task `pop_best_that_fits` picks for it and books it before the task
/// is handed out; with nothing that fits it stops once the lanes are closed
/// and empty, and waits for a change otherwise. `cpu_pressure_wins` is the
/// caller's comparison of the lanes' backlog pressure.
pub fn run_manager(queue: &mut ManagerQueue, pool: &mut PoolState, cpu_pressure_wins: bool) -> (a: ManagerAction)
    requires
        old(queue).wf(),
        old(pool).wf(),
    ensures
        final(queue).wf(),
        final(pool).wf(),
        final(queue).closed == old(queue).closed,
        match best_lane(
            old(queue).io@,
            old(queue).cpu@,
            room_of(*old(pool)),
            old(pool).busy_workers < old(pool).n_workers,
            cpu_pressure_wins,
        ) {
            Some(true) => a == ManagerAction::Send(old(queue).cpu@[0]) && final(queue).cpu@ == old(
                queue,
            ).cpu@.drop_first() && final(queue).io@ == old(queue).io@ && *final(pool) == booked(
                *old(pool),
                old(queue).cpu@[0].cpu_cost,
            ),
            Some(false) => a == ManagerAction::Send(old(queue).io@[0]) && final(queue).io@ == old(
                queue,
            ).io@.drop_first() && final(queue).cpu@ == old(queue).cpu@ && *final(pool) == booked(
                *old(pool),
                old(queue).io@[0].cpu_cost,
            ),
            None => final(queue).io@ == old(queue).io@ && final(queue).cpu@ == old(queue).cpu@ && *final(pool)
                == *old(pool) && a == (if old(queue).closed && old(queue).io@.len() == 0 && old(
                queue,
            ).cpu@.len() == 0 {
                ManagerAction::Stop
            } else {
                ManagerAction::Wait
            }),
        },
{
    let (cpu_room, has_free_worker) = pool.available();
    match queue.pop_best_that_fits(cpu_room, has_free_worker, cpu_pressure_wins) {
        Some(task) => {
            proof {
                lemma_selected_task_fits(*pool, task);
            }
            pool.book_for(task.cpu_cost);
            ManagerAction::Send(task)
        },
        None => {
            if queue.is_closed_and_empty() {
                ManagerAction::Stop
            } else {
                ManagerAction::Wait
            }
        },
    }
}

} // verus!
