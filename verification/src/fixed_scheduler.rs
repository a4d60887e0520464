//! Two-queue scheduler in which choosing a queue, taking its head and booking
//! the head's resources happen in one step, so a task is never taken unless it
//! can start at once. The choice aims at three running mixes (8 IO, 6 IO + 1
//! CPU, 3 IO + 2 CPU) by counting queued and running tasks of each kind.
use vstd::prelude::*;
use crate::task::{Kind, Task, Next};

verus! {

/// The parts of the configuration the scheduler decides with.
#[derive(Debug, Clone, Copy, PartialEq, Eq, Structural)]
pub struct Limits {
    pub num_workers: usize,
    pub cpu_cap_pct: u32,
}

/// Queued tasks of each kind and what is booked for the running ones.
pub struct State {
    pub io: std::collections::VecDeque<Task>,
    pub cpu: std::collections::VecDeque<Task>,
    pub generator_closed: bool,
    pub cpu_budget_used: u32,
    pub busy_workers: usize,
    pub cpu_running: usize,
}

#[derive(Debug, Clone, Copy, PartialEq, Eq, Structural)]
pub enum Pick {
    Io,
    Cpu,
}

/// Whether a task may start now: a worker is free and its cost stays under the cap.
pub open spec fn fits(busy: usize, used: u32, cost: u32, cfg: Limits) -> bool {
    busy < cfg.num_workers && used + cost <= cfg.cpu_cap_pct
}

/// Whether the head of a queue exists and may start now.
pub open spec fn head_fits(q: Seq<Task>, busy: usize, used: u32, cfg: Limits) -> bool {
    q.len() > 0 && fits(busy, used, q[0].cpu_cost, cfg)
}

/// The dispatch policy.
///   - neither head can start: no dispatch;
///   - no CPU task queued or running: IO if it can start;
///   - no IO queued: CPU if it can start;
///   - otherwise aim at one running CPU task when IO (queued + running) is at
///     least six times CPU (queued + running), else at two: below the aim take
///     CPU if it can start, else IO; at the aim take IO if it can start.
pub open spec fn dispatch_choice(
    io: Seq<Task>,
    cpu: Seq<Task>,
    used: u32,
    busy: usize,
    cpu_running: usize,
    cfg: Limits,
) -> Option<Pick> {
    let io_ok = head_fits(io, busy, used, cfg);
    let cpu_ok = head_fits(cpu, busy, used, cfg);
    let io_running: int = if busy >= cpu_running { busy - cpu_running } else { 0 };
    let io_total = io.len() + io_running;
    let cpu_total = cpu.len() + cpu_running;
    if !io_ok && !cpu_ok {
        None
    } else if cpu_total == 0 {
        if io_ok { Some(Pick::Io) } else { None }
    } else if io.len() == 0 {
        if cpu_ok { Some(Pick::Cpu) } else { None }
    } else {
        let target: int = if io_total >= 6 * cpu_total { 1 } else { 2 };
        if cpu_running < target {
            if cpu_ok { Some(Pick::Cpu) } else if io_ok { Some(Pick::Io) } else { None }
        } else {
            if io_ok { Some(Pick::Io) } else { None }
        }
    }
}

impl State {
    pub open spec fn choice(&self, cfg: Limits) -> Option<Pick> {
        dispatch_choice(self.io@, self.cpu@, self.cpu_budget_used, self.busy_workers, self.cpu_running, cfg)
    }

    /// No addition the policy makes can overflow.
    pub open spec fn costs_addable(&self) -> bool {
        &&& (self.io@.len() > 0 ==> self.cpu_budget_used + self.io@[0].cpu_cost <= u32::MAX)
        &&& (self.cpu@.len() > 0 ==> self.cpu_budget_used + self.cpu@[0].cpu_cost <= u32::MAX)
    }
}

/// The dispatch policy's laws, for any queues and counters (IO running is
/// the busy workers that are not running CPU work):
///   - only a head that can start now is chosen, and something is chosen
///     whenever a head can start, except that with IO and CPU work both
///     present IO may be held back for CPU;
///   - with no CPU work queued or running, IO goes if it can;
///   - with no IO queued, CPU goes if it can;
///   - with both queued and both heads able to start, the mode counts queued
///     plus running work: when IO (queued + running) is at least six times
///     CPU (queued + running), CPU is aimed at one running task, else two;
///     below the aim the CPU head goes, at or above it the IO head goes.
pub proof fn lemma_dispatch_laws(io: Seq<Task>, cpu: Seq<Task>, used: u32, busy: usize, cpu_running: usize, cfg: Limits)
    requires
        cpu_running <= busy,
    ensures
        ({
            let r = dispatch_choice(io, cpu, used, busy, cpu_running, cfg);
            let io_ok = io.len() > 0 && busy < cfg.num_workers && used + io[0].cpu_cost <= cfg.cpu_cap_pct;
            let cpu_ok = cpu.len() > 0 && busy < cfg.num_workers && used + cpu[0].cpu_cost <= cfg.cpu_cap_pct;
            let io_all = io.len() + (busy - cpu_running);
            let cpu_all = cpu.len() + cpu_running;
            &&& (r == Some(Pick::Io) ==> io_ok)
            &&& (r == Some(Pick::Cpu) ==> cpu_ok)
            &&& (r is None ==> !io_ok && (!cpu_ok || (io.len() > 0 && cpu_all > 0)))
            &&& (cpu.len() == 0 && cpu_running == 0 && io_ok ==> r == Some(Pick::Io))
            &&& (io.len() == 0 && cpu_ok ==> r == Some(Pick::Cpu))
            &&& (io_ok && cpu_ok && io_all >= 6 * cpu_all && cpu_running >= 1 ==> r == Some(Pick::Io))
            &&& (io_ok && cpu_ok && io_all >= 6 * cpu_all && cpu_running == 0 ==> r == Some(Pick::Cpu))
            &&& (io_ok && cpu_ok && io_all < 6 * cpu_all && cpu_running < 2 ==> r == Some(Pick::Cpu))
            &&& (io_ok && cpu_ok && io_all < 6 * cpu_all && cpu_running >= 2 ==> r == Some(Pick::Io))
        }),
{
}

/// Whether `task` can start now.
pub fn can_start(s: &State, task: &Task, cfg: &Limits) -> (r: bool)
    requires
        s.cpu_budget_used + task.cpu_cost <= u32::MAX,
    ensures
        r == fits(s.busy_workers, s.cpu_budget_used, task.cpu_cost, *cfg),
{
    s.busy_workers < cfg.num_workers && s.cpu_budget_used + task.cpu_cost <= cfg.cpu_cap_pct
}

/// Chooses which queue to dispatch from, if any (see `dispatch_choice`).
pub fn choose_dispatch(s: &State, cfg: &Limits) -> (r: Option<Pick>)
    requires
        s.costs_addable(),
    ensures
        r == s.choice(*cfg),
        r == Some(Pick::Io) ==> head_fits(s.io@, s.busy_workers, s.cpu_budget_used, *cfg),
        r == Some(Pick::Cpu) ==> head_fits(s.cpu@, s.busy_workers, s.cpu_budget_used, *cfg),
{
    let io_can_start = if s.io.len() > 0 { can_start(s, &s.io[0], cfg) } else { false };
    let cpu_can_start = if s.cpu.len() > 0 { can_start(s, &s.cpu[0], cfg) } else { false };

    if !io_can_start && !cpu_can_start {
        return None;
    }

    let io_running = s.busy_workers.saturating_sub(s.cpu_running);
    let io_total: u128 = s.io.len() as u128 + io_running as u128;
    let cpu_total: u128 = s.cpu.len() as u128 + s.cpu_running as u128;

    if cpu_total == 0 {
        return if io_can_start { Some(Pick::Io) } else { None };
    }

    if s.io.len() == 0 {
        return if cpu_can_start { Some(Pick::Cpu) } else { None };
    }

    let drain_io_mode = io_total >= 6 * cpu_total;
    let cpu_target: usize = if drain_io_mode { 1 } else { 2 };

    if s.cpu_running < cpu_target {
        if cpu_can_start {
            Some(Pick::Cpu)
        } else if io_can_start {
            Some(Pick::Io)
        } else {
            None
        }
    } else {
        if io_can_start {
            Some(Pick::Io)
        } else {
            None
        }
    }
}

/// What a monitor reads from the scheduler.
#[derive(Debug, Clone, Copy, PartialEq, Eq, Structural)]
pub struct Snapshot {
    pub queued_io: usize,
    pub queued_cpu: usize,
    pub cpu_budget_used: u32,
    pub busy_workers: usize,
    pub cpu_running: usize,
}

pub struct Scheduler {
    pub state: State,
    pub cfg: Limits,
}

impl Scheduler {
    /// CPU booked never exceeds the cap, busy workers never exceed the pool,
    /// and each queue holds only tasks of its own kind.
    pub open spec fn wf(&self) -> bool {
        &&& self.state.cpu_budget_used <= self.cfg.cpu_cap_pct
        &&& self.state.busy_workers <= self.cfg.num_workers
        &&& forall|i: int| 0 <= i < self.state.io@.len() ==> (#[trigger] self.state.io@[i]).kind == Kind::Io
        &&& forall|i: int| 0 <= i < self.state.cpu@.len() ==> (#[trigger] self.state.cpu@[i]).kind == Kind::Cpu
    }

    pub fn new(cfg: Limits) -> (s: Scheduler)
        ensures
            s.wf(),
            s.cfg == cfg,
            s.state.io@ == Seq::<Task>::empty(),
            s.state.cpu@ == Seq::<Task>::empty(),
            !s.state.generator_closed,
            s.state.cpu_budget_used == 0,
            s.state.busy_workers == 0,
            s.state.cpu_running == 0,
    {
        Scheduler {
            state: State {
                io: std::collections::VecDeque::new(),
                cpu: std::collections::VecDeque::new(),
                generator_closed: false,
                cpu_budget_used: 0,
                busy_workers: 0,
                cpu_running: 0,
            },
            cfg,
        }
    }

    /// Appends the task to the queue of its kind.
    pub fn push(&mut self, task: Task)
        requires
            old(self).wf(),
        ensures
            final(self).wf(),
            final(self).cfg == old(self).cfg,
            final(self).state.generator_closed == old(self).state.generator_closed,
            final(self).state.cpu_budget_used == old(self).state.cpu_budget_used,
            final(self).state.busy_workers == old(self).state.busy_workers,
            final(self).state.cpu_running == old(self).state.cpu_running,
            task.kind == Kind::Io ==> final(self).state.io@ == old(self).state.io@.push(task)
                && final(self).state.cpu@ == old(self).state.cpu@,
            task.kind == Kind::Cpu ==> final(self).state.cpu@ == old(self).state.cpu@.push(task)
                && final(self).state.io@ == old(self).state.io@,
    {
        match task.kind {
            Kind::Io => self.state.io.push_back(task),
            Kind::Cpu => self.state.cpu.push_back(task),
        }
    }

    pub fn close_generator(&mut self)
        requires
            old(self).wf(),
        ensures
            final(self).wf(),
            final(self).cfg == old(self).cfg,
            final(self).state.generator_closed,
            final(self).state.io@ == old(self).state.io@,
            final(self).state.cpu@ == old(self).state.cpu@,
            final(self).state.cpu_budget_used == old(self).state.cpu_budget_used,
            final(self).state.busy_workers == old(self).state.busy_workers,
            final(self).state.cpu_running == old(self).state.cpu_running,
    {
        self.state.generator_closed = true;
    }

    /// Gives back what a finished task booked (never below zero).
    pub fn release(&mut self, task: &Task)
        requires
            old(self).wf(),
        ensures
            final(self).wf(),
            final(self).cfg == old(self).cfg,
            final(self).state.generator_closed == old(self).state.generator_closed,
            final(self).state.io@ == old(self).state.io@,
            final(self).state.cpu@ == old(self).state.cpu@,
            final(self).state.cpu_budget_used == if old(self).state.cpu_budget_used >= task.cpu_cost {
                old(self).state.cpu_budget_used - task.cpu_cost
            } else {
                0
            },
            final(self).state.busy_workers == if old(self).state.busy_workers >= 1 {
                old(self).state.busy_workers - 1
            } else {
                0
            },
            final(self).state.cpu_running == if task.kind == Kind::Cpu && old(self).state.cpu_running >= 1 {
                old(self).state.cpu_running - 1
            } else if task.kind == Kind::Cpu {
                0
            } else {
                old(self).state.cpu_running as int
            },
    {
        self.state.cpu_budget_used = self.state.cpu_budget_used.saturating_sub(task.cpu_cost);
        self.state.busy_workers = self.state.busy_workers.saturating_sub(1);
        if task.kind == Kind::Cpu {
            self.state.cpu_running = self.state.cpu_running.saturating_sub(1);
        }
    }

    pub fn snapshot(&self) -> (r: Snapshot)
        ensures
            r == (Snapshot {
                queued_io: self.state.io@.len() as usize,
                queued_cpu: self.state.cpu@.len() as usize,
                cpu_budget_used: self.state.cpu_budget_used,
                busy_workers: self.state.busy_workers,
                cpu_running: self.state.cpu_running,
            }),
    {
        Snapshot {
            queued_io: self.state.io.len(),
            queued_cpu: self.state.cpu.len(),
            cpu_budget_used: self.state.cpu_budget_used,
            busy_workers: self.state.busy_workers,
            cpu_running: self.state.cpu_running,
        }
    }

    /// Total queued tasks (capped at usize::MAX).
    pub fn queue_len(&self) -> (r: usize)
        ensures
            r == if self.state.io@.len() + self.state.cpu@.len() <= usize::MAX {
                self.state.io@.len() + self.state.cpu@.len()
            } else {
                usize::MAX as nat
            },
    {
        self.state.io.len().saturating_add(self.state.cpu.len())
    }

    /// One dispatch decision. `Done` once the generator is closed and both
    /// queues are empty; otherwise, if the policy picks a queue, its head is
    /// taken and its CPU, slot and (for CPU work) CPU-running count are booked
    /// before it is returned; otherwise `Wait`.
    pub fn dispatch_or_done(&mut self) -> (r: Next<Task>)
        requires
            old(self).wf(),
            old(self).state.costs_addable(),
            old(self).state.choice(old(self).cfg) == Some(Pick::Cpu) ==> old(self).state.cpu_running < usize::MAX,
        ensures
            final(self).wf(),
            final(self).cfg == old(self).cfg,
            final(self).state.generator_closed == old(self).state.generator_closed,
            ({
                let o = old(self).state;
                let f = final(self).state;
                if o.generator_closed && o.io@.len() == 0 && o.cpu@.len() == 0 {
                    r == Next::<Task>::Done && f.io@ == o.io@ && f.cpu@ == o.cpu@
                        && f.cpu_budget_used == o.cpu_budget_used && f.busy_workers == o.busy_workers
                        && f.cpu_running == o.cpu_running
                } else {
                    match o.choice(old(self).cfg) {
                        None => r == Next::<Task>::Wait && f.io@ == o.io@ && f.cpu@ == o.cpu@
                            && f.cpu_budget_used == o.cpu_budget_used && f.busy_workers == o.busy_workers
                            && f.cpu_running == o.cpu_running,
                        Some(Pick::Io) => r == Next::Ready(o.io@[0]) && f.io@ == o.io@.drop_first()
                            && f.cpu@ == o.cpu@ && f.cpu_budget_used == o.cpu_budget_used + o.io@[0].cpu_cost
                            && f.busy_workers == o.busy_workers + 1 && f.cpu_running == o.cpu_running,
                        Some(Pick::Cpu) => r == Next::Ready(o.cpu@[0]) && f.cpu@ == o.cpu@.drop_first()
                            && f.io@ == o.io@ && f.cpu_budget_used == o.cpu_budget_used + o.cpu@[0].cpu_cost
                            && f.busy_workers == o.busy_workers + 1 && f.cpu_running == o.cpu_running + 1,
                    }
                }
            }),
    {
        if self.state.generator_closed && self.state.io.len() == 0 && self.state.cpu.len() == 0 {
            return Next::Done;
        }
        match choose_dispatch(&self.state, &self.cfg) {
            Some(pick) => {
                let task = match pick {
                    Pick::Io => self.state.io.pop_front().unwrap(),
                    Pick::Cpu => self.state.cpu.pop_front().unwrap(),
                };
                assert(pick == Pick::Cpu <==> task.kind == Kind::Cpu);
                self.state.cpu_budget_used = self.state.cpu_budget_used + task.cpu_cost;
                self.state.busy_workers = self.state.busy_workers + 1;
                if task.kind == Kind::Cpu {
                    self.state.cpu_running = self.state.cpu_running + 1;
                }
                Next::Ready(task)
            },
            None => Next::Wait,
        }
    }
}

/// The state after one step of the generator.
pub open spec fn splitmix_advance(state: u64) -> u64 {
    vstd::wrapping::u64_specs::wrapping_add(state, 0x9E37_79B9_7F4A_7C15)
}

/// The value produced from an advanced state.
pub open spec fn splitmix_mix(z: u64) -> u64 {
    let z1 = vstd::wrapping::u64_specs::wrapping_mul(z ^ (z >> 30u64), 0xBF58_476D_1CE4_E5B9);
    let z2 = vstd::wrapping::u64_specs::wrapping_mul(z1 ^ (z1 >> 27u64), 0x94D0_49BB_1331_11EB);
    z2 ^ (z2 >> 31u64)
}

/// The state after `k` calls of `next_u64` from `seed`.
pub open spec fn splitmix_state_after(seed: u64, k: nat) -> u64
    decreases k,
{
    if k == 0 {
        seed
    } else {
        splitmix_advance(splitmix_state_after(seed, (k - 1) as nat))
    }
}

/// The values of the first `k` calls of `next_u64` from `seed`.
pub open spec fn splitmix_series(seed: u64, k: nat) -> Seq<u64>
    decreases k,
{
    if k == 0 {
        Seq::empty()
    } else {
        splitmix_series(seed, (k - 1) as nat).push(splitmix_mix(splitmix_state_after(seed, k)))
    }
}

/// A generator's series depends on its seed alone, so two generators made
/// from the same seed give the same values call for call: after `k` calls
/// the state is `seed + k * 0x9E3779B97F4A7C15` modulo 2^64, and the value of
/// call `i + 1` is the mix of `seed + (i + 1) * 0x9E3779B97F4A7C15`.
pub proof fn lemma_splitmix_series(seed: u64, k: nat)
    ensures
        splitmix_state_after(seed, k) == ((seed + k * 0x9E37_79B9_7F4A_7C15) % 0x1_0000_0000_0000_0000) as u64,
        splitmix_series(seed, k).len() == k,
        forall|i: int|
            0 <= i < k ==> #[trigger] splitmix_series(seed, k)[i] == splitmix_mix(
                ((seed + (i + 1) * 0x9E37_79B9_7F4A_7C15) % 0x1_0000_0000_0000_0000) as u64,
            ),
    decreases k,
{
    let g: int = 0x9E37_79B9_7F4A_7C15;
    let m: int = 0x1_0000_0000_0000_0000;
    if k > 0 {
        lemma_splitmix_series(seed, (k - 1) as nat);
        let x = splitmix_state_after(seed, (k - 1) as nat);
        assert(x as int == (seed + (k - 1) * g) % m);
        assert(splitmix_advance(x) as int == (x + g) % m);
        vstd::arithmetic::div_mod::lemma_add_mod_noop(seed + (k - 1) * g, g, m);
        vstd::arithmetic::div_mod::lemma_small_mod(g as nat, m as nat);
        assert(seed + (k - 1) * g + g == seed + k * g) by (nonlinear_arith);
        assert(splitmix_state_after(seed, k) as int == (seed + k * g) % m);
        let s = splitmix_series(seed, k);
        assert forall|i: int| 0 <= i < k implies #[trigger] s[i] == splitmix_mix(
            ((seed + (i + 1) * g) % m) as u64,
        ) by {
            if i < k - 1 {
                assert(s[i] == splitmix_series(seed, (k - 1) as nat)[i]);
            }
        }
    }
}

/// A call on the generator: `next_u64`, or `gen_index` with its bound.
#[derive(Debug, Clone, Copy, PartialEq, Eq, Structural)]
pub enum RngCall {
    NextU64,
    GenIndex(usize),
}

/// One call on a generator in `state`: the value it returns (an index as a
/// `u64`) and the state after it.
pub open spec fn rng_step(state: u64, call: RngCall) -> (u64, u64) {
    match call {
        RngCall::NextU64 => (splitmix_mix(splitmix_advance(state)), splitmix_advance(state)),
        RngCall::GenIndex(upper) => if upper <= 1 {
            (0, state)
        } else {
            (
                ((splitmix_mix(splitmix_advance(state)) as usize) % upper) as u64,
                splitmix_advance(state),
            )
        },
    }
}

/// The values a series of calls returns from `state`, and the state after.
pub open spec fn rng_calls(state: u64, calls: Seq<RngCall>) -> (Seq<u64>, u64)
    decreases calls.len(),
{
    if calls.len() == 0 {
        (Seq::empty(), state)
    } else {
        let (v, s1) = rng_step(state, calls[0]);
        let rest = rng_calls(s1, calls.drop_first());
        (seq![v] + rest.0, rest.1)
    }
}

/// How many of the calls advance the generator (every `next_u64`, and every
/// `gen_index` with a bound above 1).
pub open spec fn advancing_calls(calls: Seq<RngCall>) -> nat
    decreases calls.len(),
{
    if calls.len() == 0 {
        0
    } else {
        (match calls[0] {
            RngCall::NextU64 => 1nat,
            RngCall::GenIndex(upper) => if upper <= 1 { 0nat } else { 1nat },
        }) + advancing_calls(calls.drop_first())
    }
}

/// Two generators made from the same seed return the same values from the
/// same series of `next_u64` and `gen_index` calls, and end in the same
/// state: the seed plus one step of 0x9E3779B97F4A7C15 per advancing call,
/// modulo 2^64.
pub proof fn lemma_same_seed_same_series(a: SimpleRng, b: SimpleRng, calls: Seq<RngCall>)
    requires
        a.state == b.state,
    ensures
        rng_calls(a.state, calls) == rng_calls(b.state, calls),
        rng_calls(a.state, calls).1 == ((a.state + advancing_calls(calls) * 0x9E37_79B9_7F4A_7C15)
            % 0x1_0000_0000_0000_0000) as u64,
    decreases calls.len(),
{
    let g: int = 0x9E37_79B9_7F4A_7C15;
    let m: int = 0x1_0000_0000_0000_0000;
    if calls.len() > 0 {
        let (v, s1) = rng_step(a.state, calls[0]);
        let k = advancing_calls(calls.drop_first());
        lemma_same_seed_same_series(SimpleRng { state: s1 }, SimpleRng { state: s1 }, calls.drop_first());
        let adv: bool = match calls[0] {
            RngCall::NextU64 => true,
            RngCall::GenIndex(upper) => upper > 1,
        };
        if adv {
            assert(s1 as int == (a.state + g) % m);
            vstd::arithmetic::div_mod::lemma_add_mod_noop(a.state + g, k * g, m);
            vstd::arithmetic::div_mod::lemma_small_mod(((a.state + g) % m) as nat, m as nat);
            vstd::arithmetic::div_mod::lemma_mod_twice(k * g, m);
            vstd::arithmetic::div_mod::lemma_add_mod_noop(s1 as int, k * g, m);
            assert(a.state + g + k * g == a.state + (k + 1) * g) by (nonlinear_arith);
            assert(advancing_calls(calls) == k + 1);
        } else {
            assert(s1 == a.state);
            assert(advancing_calls(calls) == k);
        }
    }
}

/// A small deterministic generator (SplitMix64) for repeatable runs.
#[derive(Debug, Clone, Copy, PartialEq, Eq, Structural)]
pub struct SimpleRng {
    pub state: u64,
}

impl SimpleRng {
    pub fn new(seed: u64) -> (r: SimpleRng)
        ensures
            r.state == seed,
    {
        SimpleRng { state: seed }
    }

    /// Advances the state and returns the mixed value of the new state.
    pub fn next_u64(&mut self) -> (r: u64)
        ensures
            final(self).state == splitmix_advance(old(self).state),
            r == splitmix_mix(final(self).state),
            (r, final(self).state) == rng_step(old(self).state, RngCall::NextU64),
    {
        self.state = self.state.wrapping_add(0x9E37_79B9_7F4A_7C15);
        let mut z = self.state;
        z = (z ^ (z >> 30u64)).wrapping_mul(0xBF58_476D_1CE4_E5B9);
        z = (z ^ (z >> 27u64)).wrapping_mul(0x94D0_49BB_1331_11EB);
        z ^ (z >> 31u64)
    }

    /// An index below `upper_exclusive`: 0 without drawing when the bound is
    /// at most 1, else the next value reduced modulo the bound.
    pub fn gen_index(&mut self, upper_exclusive: usize) -> (r: usize)
        ensures
            upper_exclusive <= 1 ==> r == 0 && final(self).state == old(self).state,
            upper_exclusive > 1 ==> final(self).state == splitmix_advance(old(self).state)
                && r == (splitmix_mix(final(self).state) as usize) % upper_exclusive
                && r < upper_exclusive,
            (r as u64, final(self).state) == rng_step(old(self).state, RngCall::GenIndex(upper_exclusive)),
    {
        if upper_exclusive <= 1 {
            0
        } else {
            (self.next_u64() as usize) % upper_exclusive
        }
    }
}

/// `total` kinds, the first `min(io_count, total)` of them IO, the rest CPU.
pub open spec fn initial_mix(total: nat, io_count: nat) -> Seq<Kind> {
    Seq::new(total, |i: int| if i < io_count { Kind::Io } else { Kind::Cpu })
}

/// Fisher-Yates from position `i` down to 1, each step swapping position `i`
/// with an index drawn below `i + 1`; gives the shuffled sequence and the
/// generator state after the draws.
pub open spec fn shuffle_down(s: Seq<Kind>, i: nat, state: u64) -> (Seq<Kind>, u64)
    decreases i,
{
    if i == 0 {
        (s, state)
    } else {
        let st = splitmix_advance(state);
        let j = ((splitmix_mix(st) as usize) as nat % (i + 1)) as int;
        shuffle_down(s.update(i as int, s[j]).update(j, s[i as int]), (i - 1) as nat, st)
    }
}

/// The last position of a sequence of `len` items (0 when empty).
pub open spec fn last_index(len: nat) -> nat {
    if len == 0 { 0 } else { (len - 1) as nat }
}

/// Exactly `min(io_count, total)` IO kinds and the rest CPU, in an order
/// shuffled by the generator (Fisher-Yates). The count of IO tasks comes in
/// already rounded from the configured fraction.
pub fn make_exact_mix(total: usize, io_count: usize, rng: &mut SimpleRng) -> (kinds: Vec<Kind>)
    ensures
        kinds@.len() == total,
        (kinds@, final(rng).state) == shuffle_down(
            initial_mix(total as nat, if io_count <= total { io_count as nat } else { total as nat }),
            last_index(total as nat),
            old(rng).state,
        ),
        kinds@.to_multiset() == initial_mix(
            total as nat,
            if io_count <= total { io_count as nat } else { total as nat },
        ).to_multiset(),
{
    let io_count = if io_count < total { io_count } else { total };
    let ghost init = initial_mix(total as nat, io_count as nat);
    let mut kinds: Vec<Kind> = Vec::with_capacity(total);
    let mut k: usize = 0;
    while k < total
        invariant
            k <= total,
            io_count <= total,
            kinds@ == init.take(k as int),
            init == initial_mix(total as nat, io_count as nat),
        decreases total - k,
    {
        if k < io_count {
            kinds.push(Kind::Io);
        } else {
            kinds.push(Kind::Cpu);
        }
        assert(init.take(k + 1) =~= init.take(k as int).push(init[k as int]));
        k = k + 1;
    }
    assert(init.take(total as int) =~= init);
    let mut i: usize = kinds.len();
    while i > 1
        invariant
            1 <= i <= total || (i == total && total <= 1),
            kinds@.len() == total,
            shuffle_down(kinds@, last_index(i as nat), rng.state) == shuffle_down(
                init,
                last_index(total as nat),
                old(rng).state,
            ),
            kinds@.to_multiset() == init.to_multiset(),
        decreases i,
    {
        i = i - 1;
        let ghost before = kinds@;
        let j = rng.gen_index(i + 1);
        let a = kinds[i];
        let b = kinds[j];
        kinds.set(i, b);
        kinds.set(j, a);
        proof {
            assert(kinds@ =~= before.update(i as int, before[j as int]).update(j as int, before[i as int]));
            let s1 = before.update(i as int, before[j as int]);
            vstd::seq_lib::to_multiset_update(before, i as int, before[j as int]);
            vstd::seq_lib::to_multiset_update(s1, j as int, before[i as int]);
            broadcast use vstd::multiset::group_multiset_axioms;
            if i == j {
                assert(s1 =~= before);
                assert(kinds@ =~= before);
            } else {
                assert(s1[j as int] == before[j as int]);
                let a = before[i as int];
                let b = before[j as int];
                let m = before.to_multiset();
                vstd::seq_lib::to_multiset_contains(before, a);
                vstd::seq_lib::to_multiset_contains(before, b);
                assert(before.contains(a));
                assert(m.count(a) > 0);
                assert(m.insert(b).remove(a).insert(a).remove(b) =~= m);
            }
        }
    }
    kinds
}

/// Why a configuration was refused.
#[derive(Debug, Clone, Copy, PartialEq, Eq, Structural)]
pub enum ConfigError {
    NoTasks,
    IoFractionOutOfRange,
    NoWorkers,
    NoCpuCap,
    IoTaskOverCap,
    CpuTaskOverCap,
}

/// Checks a configuration in a fixed order and names the first rule it
/// breaks. Whether the IO fraction lies in [0, 1] is decided by the caller.
pub fn validate_config(
    total_tasks: usize,
    io_fraction_in_range: bool,
    num_workers: usize,
    cpu_cap_pct: u32,
    io_cpu_pct: u32,
    cpu_cpu_pct: u32,
) -> (r: Result<(), ConfigError>)
    ensures
        r == if total_tasks == 0 {
            Err(ConfigError::NoTasks)
        } else if !io_fraction_in_range {
            Err(ConfigError::IoFractionOutOfRange)
        } else if num_workers == 0 {
            Err(ConfigError::NoWorkers)
        } else if cpu_cap_pct == 0 {
            Err(ConfigError::NoCpuCap)
        } else if io_cpu_pct > cpu_cap_pct {
            Err(ConfigError::IoTaskOverCap)
        } else if cpu_cpu_pct > cpu_cap_pct {
            Err(ConfigError::CpuTaskOverCap)
        } else {
            Ok(())
        },
{
    if total_tasks == 0 {
        Err(ConfigError::NoTasks)
    } else if !io_fraction_in_range {
        Err(ConfigError::IoFractionOutOfRange)
    } else if num_workers == 0 {
        Err(ConfigError::NoWorkers)
    } else if cpu_cap_pct == 0 {
        Err(ConfigError::NoCpuCap)
    } else if io_cpu_pct > cpu_cap_pct {
        Err(ConfigError::IoTaskOverCap)
    } else if cpu_cpu_pct > cpu_cap_pct {
        Err(ConfigError::CpuTaskOverCap)
    } else {
        Ok(())
    }
}

} // verus!
