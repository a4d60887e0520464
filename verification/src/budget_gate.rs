//! A shared CPU budget that workers enter before running a task and leave
//! afterwards, the deterministic generator that draws the task mix, and the
//! summary of the CPU-use samples a monitor collected.
use vstd::prelude::*;

verus! {

pub const BUDGET: u32 = 100;

#[derive(Debug, Clone, Copy, PartialEq, Eq, Structural)]
pub enum TaskKind {
    Io,
    Cpu,
}

/// CPU share a task of this kind holds while it runs.
pub open spec fn kind_cost(kind: TaskKind) -> u32 {
    match kind {
        TaskKind::Io => 10,
        TaskKind::Cpu => 50,
    }
}

/// Largest budget in use at which a task of this kind may still enter.
pub open spec fn entry_limit(kind: TaskKind) -> u32 {
    match kind {
        TaskKind::Io => 90,
        TaskKind::Cpu => 50,
    }
}

/// The budget after a task of this kind enters, or `None` when it must wait
/// (an IO task waits while more than 90 is in use, a CPU task while more
/// than 50 is).
pub fn try_enter(used: u32, kind: TaskKind) -> (r: Option<u32>)
    ensures
        r == if used <= entry_limit(kind) { Some((used + kind_cost(kind)) as u32) } else { None::<u32> },
{
    match kind {
        TaskKind::Io => if used <= 90 { Some(used + 10) } else { None },
        TaskKind::Cpu => if used <= 50 { Some(used + 50) } else { None },
    }
}

/// The budget after a task of this kind leaves.
pub fn leave(used: u32, kind: TaskKind) -> (r: u32)
    requires
        used >= kind_cost(kind),
    ensures
        r == used - kind_cost(kind),
{
    match kind {
        TaskKind::Io => used - 10,
        TaskKind::Cpu => used - 50,
    }
}

/// Entering never takes the budget past 100, and leaving undoes entering.
pub proof fn lemma_gate_keeps_budget(used: u32, kind: TaskKind)
    requires
        used <= BUDGET,
    ensures
        used <= entry_limit(kind) ==> used + kind_cost(kind) <= BUDGET,
        used + kind_cost(kind) - kind_cost(kind) == used,
{
}

/// The generator's next state (a 64-bit linear congruential step).
pub open spec fn lcg_next(state: u64) -> u64 {
    vstd::wrapping::u64_specs::wrapping_add(
        vstd::wrapping::u64_specs::wrapping_mul(state, 6364136223846793005),
        1442695040888963407,
    )
}

#[derive(Debug, Clone, Copy, PartialEq, Eq, Structural)]
pub struct SimpleRng {
    pub state: u64,
}

impl SimpleRng {
    pub fn new(seed: u64) -> (r: SimpleRng)
        ensures
            r.state == seed,
    {
        SimpleRng { state: seed }
    }

    /// Advances the state and returns its upper 32 bits; a draw is "true"
    /// with probability p when this value over u32::MAX is below p.
    pub fn next_u32(&mut self) -> (r: u32)
        ensures
            final(self).state == lcg_next(old(self).state),
            r == (final(self).state >> 32u64) as u32,
    {
        self.state = self.state.wrapping_mul(6364136223846793005).wrapping_add(1442695040888963407);
        (self.state >> 32u64) as u32
    }
}

pub open spec fn usage_sum(h: Seq<(u64, u32)>) -> nat
    decreases h.len(),
{
    if h.len() == 0 { 0 } else { usage_sum(h.drop_last()) + h.last().1 as nat }
}

pub open spec fn usage_max(h: Seq<(u64, u32)>) -> u32
    decreases h.len(),
{
    if h.len() == 0 {
        0
    } else {
        let m = usage_max(h.drop_last());
        if h.last().1 > m { h.last().1 } else { m }
    }
}

/// (sum, peak) of the sampled CPU use of a (time, usage) history.
pub fn history_stats(history: &Vec<(u64, u32)>) -> (r: (u64, u32))
    requires
        usage_sum(history@) <= u64::MAX,
    ensures
        r.0 == usage_sum(history@),
        r.1 == usage_max(history@),
{
    let mut sum: u64 = 0;
    let mut max: u32 = 0;
    let mut i: usize = 0;
    while i < history.len()
        invariant
            i <= history.len(),
            usage_sum(history@) <= u64::MAX,
            sum == usage_sum(history@.take(i as int)),
            max == usage_max(history@.take(i as int)),
        decreases history.len() - i,
    {
        proof {
            assert(history@.take(i + 1).drop_last() =~= history@.take(i as int));
            lemma_usage_sum_prefix(history@, i + 1);
        }
        let usage = history[i].1;
        sum = sum + usage as u64;
        if usage > max {
            max = usage;
        }
        i = i + 1;
    }
    assert(history@.take(i as int) =~= history@);
    (sum, max)
}

proof fn lemma_usage_sum_prefix(h: Seq<(u64, u32)>, k: int)
    requires
        0 <= k <= h.len(),
    ensures
        usage_sum(h.take(k)) <= usage_sum(h),
    decreases h.len(),
{
    if k < h.len() {
        lemma_usage_sum_prefix(h.drop_last(), k);
        assert(h.drop_last().take(k) =~= h.take(k));
    } else {
        assert(h.take(k) =~= h);
    }
}

} // verus!
