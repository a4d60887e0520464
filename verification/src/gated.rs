//! Workers that reserve their task's CPU share against a global budget
//! before running it (an admission gate), the per-worker seeded draws of
//! task kinds and durations, and the monitor's running report.
use vstd::prelude::*;
use crate::seeded::{draw_inclusive, draw_ratio, seeded_rng, Draw, SeededRng};

verus! {

pub const CPU_BUDGET: usize = 100;

#[derive(Debug, Clone, Copy, PartialEq, Eq, Structural)]
pub enum TaskKind {
    Cpu,
    Io,
}

pub open spec fn cost_of(kind: TaskKind) -> usize {
    match kind {
        TaskKind::Cpu => 35,
        TaskKind::Io => 10,
    }
}

impl TaskKind {
    /// CPU share a task of this kind holds while running: 35 for CPU, 10 for IO.
    pub fn cpu_cost(&self) -> (r: usize)
        ensures
            r == cost_of(*self),
    {
        match self {
            TaskKind::Cpu => 35,
            TaskKind::Io => 10,
        }
    }
}

/// The global use after reserving `cost`, when that stays within the
/// budget, else `None` (the worker backs off and retries).
pub fn try_reserve(current: usize, cost: usize, budget: usize) -> (r: Option<usize>)
    requires
        current + cost <= usize::MAX,
    ensures
        r == if current + cost <= budget { Some((current + cost) as usize) } else { None::<usize> },
{
    if current + cost <= budget {
        Some(current + cost)
    } else {
        None
    }
}

/// A reservation never takes the global use past the budget.
pub proof fn lemma_gate_respects_budget(current: usize, cost: usize, budget: usize)
    requires
        current + cost <= usize::MAX,
    ensures
        (if current + cost <= budget { Some((current + cost) as usize) } else { None::<usize> }) matches Some(
            u,
        ) ==> u <= budget,
{
}

/// What happens at admission during a run: a worker (by index) reserves a
/// task's cost, retrying later when it does not fit, or releases what it
/// holds when its task ends.
pub enum GateEvent {
    Reserve(usize, usize),
    Release(usize),
}

pub open spec fn held_cost(h: Option<usize>) -> nat {
    match h {
        Some(c) => c as nat,
        None => 0,
    }
}

/// Total cost the workers hold.
pub open spec fn sum_held(h: Seq<Option<usize>>) -> nat
    decreases h.len(),
{
    if h.len() == 0 { 0 } else { sum_held(h.drop_last()) + held_cost(h.last()) }
}

/// Number of workers running a task.
pub open spec fn active_workers(h: Seq<Option<usize>>) -> nat
    decreases h.len(),
{
    if h.len() == 0 { 0 } else { active_workers(h.drop_last()) + if h.last() is Some { 1nat } else { 0nat } }
}

/// One admission event on the global use `current` and the worker
/// holdings `h`: a reservation by an idle worker goes through exactly when
/// `try_reserve` grants it; a release by a running worker gives its cost back.
pub open spec fn gate_step(current: usize, h: Seq<Option<usize>>, ev: GateEvent, budget: usize) -> (usize, Seq<
    Option<usize>,
>) {
    match ev {
        GateEvent::Reserve(w, c) => if w < h.len() && h[w as int] is None && current + c <= budget {
            ((current + c) as usize, h.update(w as int, Some(c)))
        } else {
            (current, h)
        },
        GateEvent::Release(w) => if w < h.len() && h[w as int] is Some && current >= held_cost(h[w as int]) {
            ((current - held_cost(h[w as int])) as usize, h.update(w as int, None))
        } else {
            (current, h)
        },
    }
}

/// The global use and the holdings after a run of events.
pub open spec fn gate_run(current: usize, h: Seq<Option<usize>>, events: Seq<GateEvent>, budget: usize) -> (
    usize,
    Seq<Option<usize>>,
)
    decreases events.len(),
{
    if events.len() == 0 {
        (current, h)
    } else {
        let (c1, h1) = gate_step(current, h, events[0], budget);
        gate_run(c1, h1, events.drop_first(), budget)
    }
}

proof fn lemma_sum_held_update(h: Seq<Option<usize>>, w: int, x: Option<usize>)
    requires
        0 <= w < h.len(),
    ensures
        sum_held(h) >= held_cost(h[w]),
        sum_held(h.update(w, x)) == sum_held(h) - held_cost(h[w]) + held_cost(x),
        active_workers(h.update(w, x)) == active_workers(h) - (if h[w] is Some { 1int } else { 0int }) + (if x is Some {
            1int
        } else {
            0int
        }),
    decreases h.len(),
{
    let u = h.update(w, x);
    if w < h.len() - 1 {
        lemma_sum_held_update(h.drop_last(), w, x);
        assert(u.drop_last() =~= h.drop_last().update(w, x));
    } else {
        assert(u.drop_last() =~= h.drop_last());
    }
}

proof fn lemma_active_bounded(h: Seq<Option<usize>>)
    ensures
        active_workers(h) <= h.len(),
    decreases h.len(),
{
    if h.len() > 0 {
        lemma_active_bounded(h.drop_last());
    }
}

/// Over any run of reservations and releases at admission, the global CPU
/// use is always the sum of what the running workers hold and never exceeds
/// the budget, and no more workers are active than there are workers.
pub proof fn lemma_gate_run_within_budget(
    current: usize,
    h: Seq<Option<usize>>,
    events: Seq<GateEvent>,
    budget: usize,
)
    requires
        current == sum_held(h),
        current <= budget,
    ensures
        ({
            let (c, h1) = gate_run(current, h, events, budget);
            &&& c == sum_held(h1)
            &&& c <= budget
            &&& h1.len() == h.len()
            &&& active_workers(h1) <= h1.len()
        }),
    decreases events.len(),
{
    if events.len() == 0 {
        lemma_active_bounded(h);
    } else {
        let (c1, h1) = gate_step(current, h, events[0], budget);
        match events[0] {
            GateEvent::Reserve(w, c) => {
                if w < h.len() && h[w as int] is None && current + c <= budget {
                    lemma_sum_held_update(h, w as int, Some(c));
                }
            },
            GateEvent::Release(w) => {
                if w < h.len() && h[w as int] is Some {
                    lemma_sum_held_update(h, w as int, None);
                }
            },
        }
        lemma_gate_run_within_budget(c1, h1, events.drop_first(), budget);
    }
}

/// Cost of the i-th task of the alternating workload: CPU-heavy (35) on even
/// steps, light (10) on odd ones.
pub fn alternating_cost(i: usize) -> (r: usize)
    ensures
        r == if i % 2 == 0 { 35usize } else { 10usize },
{
    if i % 2 == 0 {
        35
    } else {
        10
    }
}

/// What the monitor hands back at the end: sample count and the sums of the
/// sampled CPU use and active workers.
#[derive(Debug, Clone, Copy, PartialEq, Eq, Structural)]
pub struct MonitorReport {
    pub sample_count: u64,
    pub cpu_sum: u64,
    pub active_sum: u64,
}

impl MonitorReport {
    pub fn new() -> (r: MonitorReport)
        ensures
            r == (MonitorReport { sample_count: 0, cpu_sum: 0, active_sum: 0 }),
    {
        MonitorReport { sample_count: 0, cpu_sum: 0, active_sum: 0 }
    }

    /// Accumulates one sample.
    pub fn record(&mut self, cpu: usize, active: usize)
        requires
            old(self).sample_count < u64::MAX,
            old(self).cpu_sum + cpu <= u64::MAX,
            old(self).active_sum + active <= u64::MAX,
        ensures
            *final(self) == (MonitorReport {
                sample_count: (old(self).sample_count + 1) as u64,
                cpu_sum: (old(self).cpu_sum + cpu) as u64,
                active_sum: (old(self).active_sum + active) as u64,
            }),
    {
        self.sample_count = self.sample_count + 1;
        self.cpu_sum = self.cpu_sum + cpu as u64;
        self.active_sum = self.active_sum + active as u64;
    }
}

/// The generator of worker `worker_id`, seeded with `base_seed + worker_id`.
pub fn worker_rng(base_seed: u64, worker_id: usize) -> (r: SeededRng)
    requires
        base_seed + worker_id <= u64::MAX,
    ensures
        r.seed() == base_seed + worker_id,
        r.draws() == Seq::<Draw>::empty(),
{
    seeded_rng(base_seed + worker_id as u64)
}

/// A task a worker runs.
#[derive(Debug, Clone, Copy, PartialEq, Eq, Structural)]
pub struct PlannedTask {
    pub kind: TaskKind,
    pub duration_ms: u64,
    pub cost: usize,
}

/// The next task of a worker: its kind is an IO task with chance
/// `io_numerator / io_denominator`, then its duration is drawn from
/// `dur_min..=dur_max`, both from the worker's generator in that order; its
/// cost follows from its kind.
pub fn plan_task(rng: &mut SeededRng, io_numerator: u32, io_denominator: u32, dur_min: u64, dur_max: u64) -> (t:
    PlannedTask)
    requires
        0 < io_denominator,
        io_numerator <= io_denominator,
        dur_min <= dur_max,
    ensures
        final(rng).seed() == old(rng).seed(),
        final(rng).draws() == old(rng).draws().push(
            Draw::Ratio { numerator: io_numerator, denominator: io_denominator, hit: t.kind == TaskKind::Io },
        ).push(Draw::Range { lo: dur_min, hi: dur_max, value: t.duration_ms }),
        io_numerator == io_denominator ==> t.kind == TaskKind::Io,
        io_numerator == 0 ==> t.kind == TaskKind::Cpu,
        dur_min <= t.duration_ms <= dur_max,
        t.cost == cost_of(t.kind),
{
    let is_io = draw_ratio(rng, io_numerator, io_denominator);
    let kind = if is_io { TaskKind::Io } else { TaskKind::Cpu };
    let duration_ms = draw_inclusive(rng, dur_min, dur_max);
    let cost = kind.cpu_cost();
    PlannedTask { kind, duration_ms, cost }
}

} // verus!
