//! Strict ratio-reservation batching over the two lanes. From the live
//! backlog the manager requires exactly one mode (8 IO, 6 IO + 1 CPU, or
//! 3 IO + 2 CPU) and dispatches it as a batch only when it is ready; it never
//! fills free workers with partial work while arrivals are still open. Once
//! the generator has closed, a final drain sends single CPU tasks first and
//! then as many IO tasks as fit.
use vstd::prelude::*;
use crate::task::{Kind, Task};
use crate::pressure::ManagerQueue;
use crate::cpu_first::Round;
use crate::signal::SchedulerSignal;

verus! {

/// A batch shape: how many IO and CPU tasks go out together.
#[derive(Debug, Clone, Copy)]
pub struct DispatchMode {
    pub name: &'static str,
    pub io: usize,
    pub cpu: usize,
}

impl DispatchMode {
    /// Number of workers the batch occupies.
    pub fn total(self) -> (r: usize)
        requires
            self.io + self.cpu <= usize::MAX,
        ensures
            r == self.io + self.cpu,
    {
        self.io + self.cpu
    }

    /// CPU share the batch books, for the given per-task costs.
    pub fn cost(self, io_cost: u32, cpu_cost: u32) -> (r: u32)
        requires
            (self.io as u32) * io_cost + (self.cpu as u32) * cpu_cost <= u32::MAX,
        ensures
            r == (self.io as u32) * io_cost + (self.cpu as u32) * cpu_cost,
    {
        proof {
            assert(0 <= (self.io as u32) * io_cost) by (nonlinear_arith);
            assert(0 <= (self.cpu as u32) * cpu_cost) by (nonlinear_arith);
        }
        (self.io as u32) * io_cost + (self.cpu as u32) * cpu_cost
    }
}

/// The mode the backlog requires, as (IO, CPU): 8 IO when no CPU task waits,
/// 6 + 1 when IO waits at least six times as much as CPU, else 3 + 2.
pub open spec fn required_mode(io_waiting: nat, cpu_waiting: nat) -> (nat, nat) {
    if cpu_waiting == 0 {
        (8, 0)
    } else if io_waiting >= 6 * cpu_waiting {
        (6, 1)
    } else {
        (3, 2)
    }
}

pub open spec fn min_nat(a: nat, b: nat) -> nat {
    if a <= b { a } else { b }
}

/// How many IO and CPU tasks (from the lane heads) the manager sends now,
/// or `None` when it waits.
pub open spec fn strict_batch_shape(
    io: Seq<Task>,
    cpu: Seq<Task>,
    closed: bool,
    cpu_room: u32,
    free_workers: usize,
    io_cost: u32,
    cpu_cost: u32,
) -> Option<(nat, nat)> {
    let (mi, mc) = required_mode(io.len(), cpu.len());
    if free_workers == 0 || (io.len() == 0 && cpu.len() == 0) {
        None
    } else if io.len() >= mi && cpu.len() >= mc && mi + mc <= free_workers && mi * io_cost + mc * cpu_cost
        <= cpu_room {
        Some((mi, mc))
    } else if !closed {
        None
    } else if cpu.len() > 0 {
        if cpu[0].cpu_cost <= cpu_room { Some((0, 1)) } else { None }
    } else if io[0].cpu_cost <= cpu_room {
        let by_cpu: nat = if io_cost == 0 { io.len() } else { (cpu_room / io_cost) as nat };
        Some((min_nat(min_nat(free_workers as nat, io.len()), if by_cpu >= 1 { by_cpu } else { 1 }), 0))
    } else {
        None
    }
}

/// The required mode's cost can be computed without overflow.
pub open spec fn mode_cost_fits(io_waiting: nat, cpu_waiting: nat, io_cost: u32, cpu_cost: u32) -> bool {
    let (mi, mc) = required_mode(io_waiting, cpu_waiting);
    mi * io_cost + mc * cpu_cost <= u32::MAX
}

impl ManagerQueue {
    /// Moves the first `n` tasks of `queue` to the end of `out`, in order.
    pub fn pop_n(queue: &mut std::collections::VecDeque<Task>, n: usize, out: &mut Vec<Task>)
        requires
            n <= old(queue)@.len(),
        ensures
            final(queue)@ == old(queue)@.skip(n as int),
            final(out)@ == old(out)@ + old(queue)@.take(n as int),
    {
        let mut k: usize = 0;
        while k < n
            invariant
                k <= n,
                n <= old(queue)@.len(),
                queue@ == old(queue)@.skip(k as int),
                out@ == old(out)@ + old(queue)@.take(k as int),
            decreases n - k,
        {
            let t = queue.pop_front().unwrap();
            out.push(t);
            assert(old(queue)@.take(k + 1) =~= old(queue)@.take(k as int).push(t));
            assert(queue@ =~= old(queue)@.skip(k + 1));
            k = k + 1;
        }
    }

    /// Picks one strict ratio batch, or nothing (see `strict_batch_shape`);
    /// the batch is the IO part followed by the CPU part, each taken from the
    /// head of its lane.
    pub fn pop_strict_ratio_batch_if_ready(
        &mut self,
        cpu_room: u32,
        free_workers: usize,
        io_cost: u32,
        cpu_cost: u32,
    ) -> (r: Option<Vec<Task>>)
        requires
            old(self).wf(),
            free_workers > 0 && (old(self).io@.len() > 0 || old(self).cpu@.len() > 0) ==> mode_cost_fits(
                old(self).io@.len(),
                old(self).cpu@.len(),
                io_cost,
                cpu_cost,
            ),
        ensures
            final(self).wf(),
            final(self).closed == old(self).closed,
            match strict_batch_shape(
                old(self).io@,
                old(self).cpu@,
                old(self).closed,
                cpu_room,
                free_workers,
                io_cost,
                cpu_cost,
            ) {
                None => r is None && final(self).io@ == old(self).io@ && final(self).cpu@ == old(self).cpu@,
                Some((ni, nc)) => r is Some && ni <= old(self).io@.len() && nc <= old(self).cpu@.len()
                    && r->0@ == old(self).io@.take(ni as int) + old(self).cpu@.take(nc as int)
                    && final(self).io@ == old(self).io@.skip(ni as int)
                    && final(self).cpu@ == old(self).cpu@.skip(nc as int),
            },
    {
        if free_workers == 0 {
            return None;
        }
        if self.io.len() == 0 && self.cpu.len() == 0 {
            return None;
        }
        let cpu_waiting = self.cpu.len();
        let io_waiting = self.io.len();
        let required_mode = if cpu_waiting == 0 {
            DispatchMode { name: "8 IO", io: 8, cpu: 0 }
        } else if io_waiting as u128 >= 6 * (cpu_waiting as u128) {
            DispatchMode { name: "6 IO + 1 CPU", io: 6, cpu: 1 }
        } else {
            DispatchMode { name: "3 IO + 2 CPU", io: 3, cpu: 2 }
        };
        let enough_tasks = self.io.len() >= required_mode.io && self.cpu.len() >= required_mode.cpu;
        let enough_workers = required_mode.total() <= free_workers;
        let enough_cpu = required_mode.cost(io_cost, cpu_cost) <= cpu_room;

        if enough_tasks && enough_workers && enough_cpu {
            let mut batch: Vec<Task> = Vec::new();
            let ghost io0 = self.io@;
            let ghost cpu0 = self.cpu@;
            Self::pop_n(&mut self.io, required_mode.io, &mut batch);
            Self::pop_n(&mut self.cpu, required_mode.cpu, &mut batch);
            assert(batch@ =~= io0.take(required_mode.io as int) + cpu0.take(required_mode.cpu as int));
            proof {
                assert forall|i: int| 0 <= i < self.io@.len() implies (#[trigger] self.io@[i]).kind == Kind::Io by {
                    assert(self.io@[i] == io0[i + required_mode.io]);
                }
                assert forall|i: int| 0 <= i < self.cpu@.len() implies (#[trigger] self.cpu@[i]).kind
                    == Kind::Cpu by {
                    assert(self.cpu@[i] == cpu0[i + required_mode.cpu]);
                }
            }
            return Some(batch);
        }

        if !self.closed {
            return None;
        }

        if self.cpu.len() > 0 {
            if self.cpu[0].cpu_cost <= cpu_room {
                let t = self.cpu.pop_front().unwrap();
                let mut batch: Vec<Task> = Vec::new();
                batch.push(t);
                assert(batch@ =~= old(self).io@.take(0) + old(self).cpu@.take(1));
                assert(self.io@ =~= old(self).io@.skip(0));
                return Some(batch);
            }
            return None;
        }

        if self.io.len() > 0 && self.io[0].cpu_cost <= cpu_room {
            let by_cpu: usize = if io_cost == 0 { self.io.len() } else { (cpu_room / io_cost) as usize };
            let by_cpu_at_least_one: usize = if by_cpu >= 1 { by_cpu } else { 1 };
            let a: usize = if free_workers <= self.io.len() { free_workers } else { self.io.len() };
            let count: usize = if a <= by_cpu_at_least_one { a } else { by_cpu_at_least_one };
            let mut batch: Vec<Task> = Vec::new();
            let ghost io0 = self.io@;
            Self::pop_n(&mut self.io, count, &mut batch);
            assert(batch@ =~= io0.take(count as int) + old(self).cpu@.take(0));
            assert(self.cpu@ =~= old(self).cpu@.skip(0));
            proof {
                assert forall|i: int| 0 <= i < self.io@.len() implies (#[trigger] self.io@[i]).kind == Kind::Io by {
                    assert(self.io@[i] == io0[i + count]);
                }
            }
            return Some(batch);
        }
        None
    }
}

/// Sum of the costs of a sequence of tasks.
pub open spec fn cost_sum(s: Seq<Task>) -> nat
    decreases s.len(),
{
    if s.len() == 0 { 0 } else { cost_sum(s.drop_last()) + s.last().cpu_cost as nat }
}

/// The CPU share a batch books in total.
pub fn batch_cost(batch: &Vec<Task>) -> (r: u32)
    requires
        cost_sum(batch@) <= u32::MAX,
    ensures
        r == cost_sum(batch@),
{
    let mut total: u32 = 0;
    let mut i: usize = 0;
    while i < batch.len()
        invariant
            i <= batch.len(),
            cost_sum(batch@) <= u32::MAX,
            total == cost_sum(batch@.take(i as int)),
        decreases batch.len() - i,
    {
        proof {
            assert(batch@.take(i + 1).drop_last() =~= batch@.take(i as int));
            lemma_cost_sum_prefix(batch@, i + 1);
        }
        total = total + batch[i].cpu_cost;
        i = i + 1;
    }
    assert(batch@.take(i as int) =~= batch@);
    total
}

proof fn lemma_cost_sum_prefix(s: Seq<Task>, k: int)
    requires
        0 <= k <= s.len(),
    ensures
        cost_sum(s.take(k)) <= cost_sum(s),
    decreases s.len(),
{
    if k < s.len() {
        lemma_cost_sum_prefix(s.drop_last(), k);
        assert(s.drop_last().take(k) =~= s.take(k));
    } else {
        assert(s.take(k) =~= s);
    }
}

proof fn lemma_cost_sum_concat(a: Seq<Task>, b: Seq<Task>)
    ensures
        cost_sum(a + b) == cost_sum(a) + cost_sum(b),
    decreases b.len(),
{
    if b.len() > 0 {
        lemma_cost_sum_concat(a, b.drop_last());
        assert((a + b).drop_last() =~= a + b.drop_last());
    } else {
        assert(a + b =~= a);
    }
}

proof fn lemma_cost_sum_uniform(s: Seq<Task>, n: int, c: u32)
    requires
        0 <= n <= s.len(),
        forall|i: int| 0 <= i < s.len() ==> (#[trigger] s[i]).cpu_cost == c,
    ensures
        cost_sum(s.take(n)) == n * c,
    decreases n,
{
    if n > 0 {
        lemma_cost_sum_uniform(s, n - 1, c);
        assert(s.take(n).drop_last() =~= s.take(n - 1));
        assert(s.take(n).last() == s[n - 1]);
        assert(s[n - 1].cpu_cost == c);
        assert(n * c == (n - 1) * c + c) by (nonlinear_arith);
    } else {
        assert(s.take(n) =~= Seq::<Task>::empty());
    }
}

/// When every queued task costs what the configuration says for its kind,
/// every batch the strict policy hands out fits what the pool reported free:
/// no more tasks than free workers and no more CPU than the headroom.
pub proof fn lemma_strict_batch_fits(
    io: Seq<Task>,
    cpu: Seq<Task>,
    closed: bool,
    cpu_room: u32,
    free_workers: usize,
    io_cost: u32,
    cpu_cost: u32,
)
    requires
        forall|i: int| 0 <= i < io.len() ==> (#[trigger] io[i]).cpu_cost == io_cost,
        forall|i: int| 0 <= i < cpu.len() ==> (#[trigger] cpu[i]).cpu_cost == cpu_cost,
    ensures
        match strict_batch_shape(io, cpu, closed, cpu_room, free_workers, io_cost, cpu_cost) {
            Some((ni, nc)) => ni <= io.len() && nc <= cpu.len() && ni + nc <= free_workers && cost_sum(
                io.take(ni as int) + cpu.take(nc as int),
            ) <= cpu_room,
            None => true,
        },
{
    match strict_batch_shape(io, cpu, closed, cpu_room, free_workers, io_cost, cpu_cost) {
        Some((ni, nc)) => {
            let (mi, mc) = required_mode(io.len(), cpu.len());
            if io.len() >= mi && cpu.len() >= mc && mi + mc <= free_workers && mi * io_cost + mc * cpu_cost
                <= cpu_room {
                assert(ni == mi && nc == mc);
            } else if cpu.len() > 0 {
                assert(ni == 0 && nc == 1);
                assert(cpu[0].cpu_cost == cpu_cost);
            } else {
                assert(nc == 0);
                assert(io[0].cpu_cost == io_cost);
                let by_cpu: nat = if io_cost == 0 { io.len() } else { (cpu_room / io_cost) as nat };
                if io_cost > 0 && by_cpu >= 1 {
                    vstd::arithmetic::div_mod::lemma_fundamental_div_mod(cpu_room as int, io_cost as int);
                    vstd::arithmetic::div_mod::lemma_mod_bound(cpu_room as int, io_cost as int);
                    assert(ni * io_cost <= by_cpu * io_cost) by (nonlinear_arith)
                        requires ni <= by_cpu;
                    let room = cpu_room as int;
                    let c = io_cost as int;
                    assert(room == c * (room / c) + room % c);
                    assert(by_cpu == room / c);
                    assert(by_cpu * io_cost <= cpu_room) by (nonlinear_arith)
                        requires
                            room == c * by_cpu + room % c,
                            room % c >= 0,
                            room == cpu_room,
                            c == io_cost;
                } else if io_cost > 0 {
                    assert(ni <= 1);
                    assert(ni * io_cost <= io_cost) by (nonlinear_arith)
                        requires ni <= 1;
                } else {
                    assert(ni * io_cost == 0) by (nonlinear_arith)
                        requires io_cost == 0;
                }
            }
            lemma_cost_sum_uniform(io, ni as int, io_cost);
            lemma_cost_sum_uniform(cpu, nc as int, cpu_cost);
            lemma_cost_sum_concat(io.take(ni as int), cpu.take(nc as int));
        },
        None => {},
    }
}

/// Global CPU use and busy workers for batch dispatch.
#[derive(Debug, Clone, Copy, PartialEq, Eq, Structural)]
pub struct PoolState {
    pub cpu_used: u32,
    pub busy_workers: usize,
    pub cap: u32,
    pub n_workers: usize,
}

impl PoolState {
    pub open spec fn wf(&self) -> bool {
        self.cpu_used <= self.cap && self.busy_workers <= self.n_workers
    }

    pub fn new(cap: u32, n_workers: usize) -> (p: PoolState)
        ensures
            p.wf(),
            p == (PoolState { cpu_used: 0, busy_workers: 0, cap, n_workers }),
    {
        PoolState { cpu_used: 0, busy_workers: 0, cap, n_workers }
    }

    /// (CPU headroom under the cap, free workers).
    pub fn available(&self) -> (r: (u32, usize))
        ensures
            r == ((if self.cap >= self.cpu_used { (self.cap - self.cpu_used) as u32 } else { 0u32 }),
                (if self.n_workers >= self.busy_workers { (self.n_workers - self.busy_workers) as usize } else { 0usize })),
    {
        (self.cap.saturating_sub(self.cpu_used), self.n_workers.saturating_sub(self.busy_workers))
    }

    /// Books a whole batch the manager already checked to fit.
    pub fn book_batch(&mut self, total_cost: u32, task_count: usize)
        requires
            old(self).wf(),
            total_cost <= old(self).cap - old(self).cpu_used,
            task_count <= old(self).n_workers - old(self).busy_workers,
        ensures
            final(self).wf(),
            *final(self) == (PoolState {
                cpu_used: (old(self).cpu_used + total_cost) as u32,
                busy_workers: (old(self).busy_workers + task_count) as usize,
                ..*old(self)
            }),
    {
        self.cpu_used = self.cpu_used.saturating_add(total_cost);
        self.busy_workers = self.busy_workers + task_count;
    }

    /// Gives back one finished task's CPU and slot (never below zero).
    pub fn release(&mut self, task_cost: u32)
        ensures
            *final(self) == (PoolState {
                cpu_used: if old(self).cpu_used >= task_cost { (old(self).cpu_used - task_cost) as u32 } else { 0 },
                busy_workers: if old(self).busy_workers >= 1 { (old(self).busy_workers - 1) as usize } else { 0 },
                ..*old(self)
            }),
    {
        self.cpu_used = self.cpu_used.saturating_sub(task_cost);
        self.busy_workers = self.busy_workers.saturating_sub(1);
    }

    /// A worker's release: gives back the task's CPU and slot (as
    /// `release`) and records the change on the signal.
    pub fn release_and_notify(&mut self, task_cost: u32, signal: &mut SchedulerSignal)
        requires
            old(signal).version < u64::MAX,
        ensures
            *final(self) == (PoolState {
                cpu_used: if old(self).cpu_used >= task_cost { (old(self).cpu_used - task_cost) as u32 } else { 0 },
                busy_workers: if old(self).busy_workers >= 1 { (old(self).busy_workers - 1) as usize } else { 0 },
                ..*old(self)
            }),
            final(signal).version == old(signal).version + 1,
    {
        self.release(task_cost);
        signal.notify_change();
    }

    pub fn snapshot(&self) -> (r: (u32, usize))
        ensures
            r == (self.cpu_used, self.busy_workers),
    {
        (self.cpu_used, self.busy_workers)
    }
}

/// The CPU headroom under the cap that `available` reports.
pub open spec fn room_left(p: PoolState) -> u32 {
    if p.cap >= p.cpu_used { (p.cap - p.cpu_used) as u32 } else { 0u32 }
}

/// The free workers that `available` reports.
pub open spec fn workers_left(p: PoolState) -> usize {
    if p.n_workers >= p.busy_workers { (p.n_workers - p.busy_workers) as usize } else { 0usize }
}

/// Whether the batch the strict policy picks, if any, costs no more than the
/// headroom; a batch that does not fit is an internal error.
pub open spec fn batch_fits(
    io: Seq<Task>,
    cpu: Seq<Task>,
    closed: bool,
    cpu_room: u32,
    free_workers: usize,
    io_cost: u32,
    cpu_cost: u32,
) -> bool {
    match strict_batch_shape(io, cpu, closed, cpu_room, free_workers, io_cost, cpu_cost) {
        Some((ni, nc)) => cost_sum(io.take(ni as int) + cpu.take(nc as int)) <= cpu_room,
        None => true,
    }
}

/// One decision of the strict-ratio manager: it reads the pool's free
/// capacity, takes the batch `pop_strict_ratio_batch_if_ready` picks for it
/// and books the whole batch (its summed cost and one worker per task)
/// before any task is handed out; with no batch it stops once the lanes are
/// closed and empty, and waits for a change otherwise. The picked batch must
/// fit the headroom (`batch_fits`); `lemma_strict_batch_fits` shows it does
/// whenever every queued task costs what the configuration gives its kind.
pub fn run_manager(queue: &mut ManagerQueue, pool: &mut PoolState, io_cost: u32, cpu_cost: u32) -> (a: Round)
    requires
        old(queue).wf(),
        old(pool).wf(),
        batch_fits(
            old(queue).io@,
            old(queue).cpu@,
            old(queue).closed,
            room_left(*old(pool)),
            workers_left(*old(pool)),
            io_cost,
            cpu_cost,
        ),
        workers_left(*old(pool)) > 0 && (old(queue).io@.len() > 0 || old(queue).cpu@.len() > 0) ==> mode_cost_fits(
            old(queue).io@.len(),
            old(queue).cpu@.len(),
            io_cost,
            cpu_cost,
        ),
    ensures
        final(queue).wf(),
        final(pool).wf(),
        final(queue).closed == old(queue).closed,
        match strict_batch_shape(
            old(queue).io@,
            old(queue).cpu@,
            old(queue).closed,
            room_left(*old(pool)),
            workers_left(*old(pool)),
            io_cost,
            cpu_cost,
        ) {
            Some((ni, nc)) => a is Send && a->Send_0@ == old(queue).io@.take(ni as int) + old(queue).cpu@.take(
                nc as int,
            ) && final(queue).io@ == old(queue).io@.skip(ni as int) && final(queue).cpu@ == old(
                queue,
            ).cpu@.skip(nc as int) && *final(pool) == (PoolState {
                cpu_used: (old(pool).cpu_used + cost_sum(a->Send_0@)) as u32,
                busy_workers: (old(pool).busy_workers + ni + nc) as usize,
                ..*old(pool)
            }),
            None => final(queue).io@ == old(queue).io@ && final(queue).cpu@ == old(queue).cpu@ && *final(pool)
                == *old(pool) && a == (if old(queue).closed && old(queue).io@.len() == 0 && old(
                queue,
            ).cpu@.len() == 0 {
                Round::Stop
            } else {
                Round::Wait
            }),
        },
{
    let (cpu_room, free_workers) = pool.available();
    match queue.pop_strict_ratio_batch_if_ready(cpu_room, free_workers, io_cost, cpu_cost) {
        Some(batch) => {
            let total = batch_cost(&batch);
            let count = batch.len();
            pool.book_batch(total, count);
            Round::Send(batch)
        },
        None => {
            if queue.is_closed_and_empty() {
                Round::Stop
            } else {
                Round::Wait
            }
        },
    }
}

} // verus!
