//! Tasks, completions and the statistics computed over a finished run.
//!
//! Instants are nanoseconds since the start of a run; waits and
//! turnarounds are reported in whole milliseconds, rounded down.
use vstd::prelude::*;

verus! {

/// The two classes of work a dispatcher distinguishes.
#[derive(Debug, Clone, Copy, PartialEq, Eq, Structural)]
pub enum Kind {
    Io,
    Cpu,
}

/// One unit of work: its class, the share of the global CPU budget it takes
/// while running, how long it runs, and when it arrived.
#[derive(Debug, Clone, Copy, PartialEq, Eq, Structural)]
pub struct Task {
    pub id: u64,
    pub kind: Kind,
    pub cpu_cost: u32,
    pub duration_ms: u64,
    pub arrival_ns: u64,
}

/// Timing of one finished task.
#[derive(Debug, Clone, Copy, PartialEq, Eq, Structural)]
pub struct Completion {
    pub id: u64,
    pub kind: Kind,
    pub arrival_ns: u64,
    pub start_ns: u64,
    pub end_ns: u64,
}

/// The cost a task of `kind` is given when the generator creates it.
pub open spec fn cost_for_kind(kind: Kind, io_cost: u32, cpu_cost: u32) -> u32 {
    match kind {
        Kind::Io => io_cost,
        Kind::Cpu => cpu_cost,
    }
}

/// Builds the task a generator emits for a drawn kind: the cost is the
/// configured cost of that kind, the duration is the configured duration.
pub fn make_task(id: u64, kind: Kind, io_cost: u32, cpu_cost: u32, duration_ms: u64, arrival_ns: u64) -> (t: Task)
    ensures
        t == (Task { id, kind, cpu_cost: cost_for_kind(kind, io_cost, cpu_cost), duration_ms, arrival_ns }),
{
    let cost = match kind {
        Kind::Io => io_cost,
        Kind::Cpu => cpu_cost,
    };
    Task { id, kind, cpu_cost: cost, duration_ms, arrival_ns }
}

/// Elapsed time from `from` to `to`, zero when `to` is earlier.
pub open spec fn since(to: u64, from: u64) -> nat {
    if to >= from { (to - from) as nat } else { 0 }
}

/// Whole milliseconds in a span of nanoseconds, rounded down.
pub open spec fn whole_ms(ns: nat) -> nat {
    ns / 1_000_000
}

/// Wait from arrival to start, in whole milliseconds.
pub open spec fn wait_of(c: Completion) -> nat {
    whole_ms(since(c.start_ns, c.arrival_ns))
}

/// Turnaround from arrival to end, in whole milliseconds.
pub open spec fn turnaround_of(c: Completion) -> nat {
    whole_ms(since(c.end_ns, c.arrival_ns))
}

/// Sum of waits of the completions of kind `k` (all kinds when `k` is None).
pub open spec fn wait_sum(s: Seq<Completion>, k: Option<Kind>) -> nat
    decreases s.len(),
{
    if s.len() == 0 {
        0
    } else {
        let c = s.last();
        let w: nat = if k is None || k == Some(c.kind) { wait_of(c) } else { 0 };
        wait_sum(s.drop_last(), k) + w
    }
}

pub open spec fn turnaround_sum(s: Seq<Completion>) -> nat
    decreases s.len(),
{
    if s.len() == 0 { 0 } else { turnaround_sum(s.drop_last()) + turnaround_of(s.last()) }
}

/// Number of completions of kind `k`.
pub open spec fn kind_count(s: Seq<Completion>, k: Kind) -> nat
    decreases s.len(),
{
    if s.len() == 0 {
        0
    } else {
        kind_count(s.drop_last(), k) + if s.last().kind == k { 1nat } else { 0nat }
    }
}

/// Largest wait (zero for no completions).
pub open spec fn max_wait(s: Seq<Completion>) -> nat
    decreases s.len(),
{
    if s.len() == 0 {
        0
    } else {
        let m = max_wait(s.drop_last());
        if wait_of(s.last()) > m { wait_of(s.last()) } else { m }
    }
}

/// Id of the first completion that reaches the largest wait, as a scan that
/// replaces the candidate only on a strictly larger wait (0 when none does).
pub open spec fn max_wait_id(s: Seq<Completion>) -> u64
    decreases s.len(),
{
    if s.len() == 0 {
        0
    } else if wait_of(s.last()) > max_wait(s.drop_last()) {
        s.last().id
    } else {
        max_wait_id(s.drop_last())
    }
}

/// Latest end in whole milliseconds since the run began (0 for none).
pub open spec fn makespan_end(s: Seq<Completion>) -> u64
    decreases s.len(),
{
    if s.len() == 0 {
        0
    } else {
        let m = makespan_end(s.drop_last());
        let e = (s.last().end_ns / 1_000_000) as u64;
        if e > m { e } else { m }
    }
}

/// Smallest id (u64::MAX for no completions).
pub open spec fn first_id(s: Seq<Completion>) -> u64
    decreases s.len(),
{
    if s.len() == 0 {
        u64::MAX
    } else {
        let m = first_id(s.drop_last());
        if s.last().id < m { s.last().id } else { m }
    }
}

/// Largest id (0 for no completions).
pub open spec fn last_id(s: Seq<Completion>) -> u64
    decreases s.len(),
{
    if s.len() == 0 {
        0
    } else {
        let m = last_id(s.drop_last());
        if s.last().id > m { s.last().id } else { m }
    }
}

/// Totals over the completions of a run; the averages are these sums divided
/// by the counts.
#[derive(Debug, Clone, Copy, PartialEq, Eq, Structural)]
pub struct RunSummary {
    pub count: usize,
    pub wait_sum: u128,
    pub turnaround_sum: u128,
    pub max_wait: u64,
    pub max_wait_id: u64,
    pub io_done: usize,
    pub cpu_done: usize,
    pub io_wait_sum: u128,
    pub cpu_wait_sum: u128,
    pub makespan_end: u64,
    pub first_id: u64,
    pub last_id: u64,
}

proof fn lemma_sums_bounded(s: Seq<Completion>)
    ensures
        wait_sum(s, None) <= s.len() * (u64::MAX as nat),
        wait_sum(s, Some(Kind::Io)) <= s.len() * (u64::MAX as nat),
        wait_sum(s, Some(Kind::Cpu)) <= s.len() * (u64::MAX as nat),
        turnaround_sum(s) <= s.len() * (u64::MAX as nat),
        max_wait(s) <= u64::MAX,
        kind_count(s, Kind::Io) + kind_count(s, Kind::Cpu) == s.len(),
    decreases s.len(),
{
    if s.len() > 0 {
        lemma_sums_bounded(s.drop_last());
        let n = (s.len() - 1) as nat;
        assert(n * (u64::MAX as nat) + (u64::MAX as nat) == s.len() * (u64::MAX as nat)) by (nonlinear_arith)
            requires n + 1 == s.len();
    }
}

/// Every completion is counted under exactly one kind, and the per-kind wait
/// sums add up to the overall wait sum.
pub proof fn lemma_summary_kinds_partition(s: Seq<Completion>)
    ensures
        kind_count(s, Kind::Io) + kind_count(s, Kind::Cpu) == s.len(),
        wait_sum(s, Some(Kind::Io)) + wait_sum(s, Some(Kind::Cpu)) == wait_sum(s, None),
        max_wait(s) <= wait_sum(s, None),
    decreases s.len(),
{
    if s.len() > 0 {
        lemma_summary_kinds_partition(s.drop_last());
    }
}

/// Folds the completions of a run into its totals: the sums of waits and
/// turnarounds (overall and per kind), the largest wait and the task that
/// first reached it, the count of each kind, the latest end, and the id range.
pub fn summarize_results(completions: &Vec<Completion>) -> (r: RunSummary)
    ensures
        r.count == completions.len(),
        r.wait_sum == wait_sum(completions@, None),
        r.turnaround_sum == turnaround_sum(completions@),
        r.max_wait == max_wait(completions@),
        r.max_wait_id == max_wait_id(completions@),
        r.io_done == kind_count(completions@, Kind::Io),
        r.cpu_done == kind_count(completions@, Kind::Cpu),
        r.io_wait_sum == wait_sum(completions@, Some(Kind::Io)),
        r.cpu_wait_sum == wait_sum(completions@, Some(Kind::Cpu)),
        r.makespan_end == makespan_end(completions@),
        r.first_id == first_id(completions@),
        r.last_id == last_id(completions@),
{
    let mut r = RunSummary {
        count: 0,
        wait_sum: 0,
        turnaround_sum: 0,
        max_wait: 0,
        max_wait_id: 0,
        io_done: 0,
        cpu_done: 0,
        io_wait_sum: 0,
        cpu_wait_sum: 0,
        makespan_end: 0,
        first_id: u64::MAX,
        last_id: 0,
    };
    let mut i: usize = 0;
    while i < completions.len()
        invariant
            i <= completions.len(),
            r.count == i,
            r.wait_sum == wait_sum(completions@.take(i as int), None),
            r.turnaround_sum == turnaround_sum(completions@.take(i as int)),
            r.max_wait == max_wait(completions@.take(i as int)),
            r.max_wait_id == max_wait_id(completions@.take(i as int)),
            r.io_done == kind_count(completions@.take(i as int), Kind::Io),
            r.cpu_done == kind_count(completions@.take(i as int), Kind::Cpu),
            r.io_wait_sum == wait_sum(completions@.take(i as int), Some(Kind::Io)),
            r.cpu_wait_sum == wait_sum(completions@.take(i as int), Some(Kind::Cpu)),
            r.makespan_end == makespan_end(completions@.take(i as int)),
            r.first_id == first_id(completions@.take(i as int)),
            r.last_id == last_id(completions@.take(i as int)),
        decreases completions.len() - i,
    {
        let c = completions[i];
        let ghost prefix = completions@.take(i as int);
        let ghost next = completions@.take(i + 1);
        assert(next.drop_last() =~= prefix);
        assert(next.last() == c);
        proof {
            lemma_sums_bounded(next);
            assert((i + 1) * (u64::MAX as nat) <= 0x1_0000_0000_0000_0000 * (u64::MAX as nat)) by (nonlinear_arith)
                requires i + 1 <= 0x1_0000_0000_0000_0000;
        }
        let wait: u64 = if c.start_ns >= c.arrival_ns { (c.start_ns - c.arrival_ns) / 1_000_000 } else { 0 };
        let turn: u64 = if c.end_ns >= c.arrival_ns { (c.end_ns - c.arrival_ns) / 1_000_000 } else { 0 };
        let end_ms: u64 = c.end_ns / 1_000_000;
        r.wait_sum = r.wait_sum + wait as u128;
        r.turnaround_sum = r.turnaround_sum + turn as u128;
        if wait > r.max_wait {
            r.max_wait = wait;
            r.max_wait_id = c.id;
        }
        if end_ms > r.makespan_end {
            r.makespan_end = end_ms;
        }
        if c.id < r.first_id {
            r.first_id = c.id;
        }
        if c.id > r.last_id {
            r.last_id = c.id;
        }
        match c.kind {
            Kind::Io => {
                r.io_done = r.io_done + 1;
                r.io_wait_sum = r.io_wait_sum + wait as u128;
            },
            Kind::Cpu => {
                r.cpu_done = r.cpu_done + 1;
                r.cpu_wait_sum = r.cpu_wait_sum + wait as u128;
            },
        }
        r.count = r.count + 1;
        i = i + 1;
    }
    assert(completions@.take(i as int) =~= completions@);
    r
}

/// What a queue hands back when asked for work: a value, nothing yet (the
/// caller should wait for a change), or nothing ever again.
#[derive(Debug, Clone, Copy, PartialEq, Eq, Structural)]
pub enum Next<T> {
    Ready(T),
    Wait,
    Done,
}

/// Number of tasks of kind `k` in `s`.
pub open spec fn count_kind(s: Seq<Task>, k: Kind) -> nat
    decreases s.len(),
{
    if s.len() == 0 {
        0
    } else {
        count_kind(s.drop_last(), k) + if s.last().kind == k { 1nat } else { 0nat }
    }
}

pub proof fn lemma_count_push(s: Seq<Task>, t: Task, k: Kind)
    ensures
        count_kind(s.push(t), k) == count_kind(s, k) + if t.kind == k { 1nat } else { 0nat },
{
    assert(s.push(t).drop_last() =~= s);
}

pub proof fn lemma_count_drop_first(s: Seq<Task>, k: Kind)
    requires
        s.len() > 0,
    ensures
        count_kind(s, k) == count_kind(s.drop_first(), k) + if s[0].kind == k { 1nat } else { 0nat },
    decreases s.len(),
{
    if s.len() > 1 {
        lemma_count_drop_first(s.drop_last(), k);
        assert(s.drop_last().drop_first() =~= s.drop_first().drop_last());
    } else {
        assert(s.drop_first() =~= Seq::<Task>::empty());
        assert(s.drop_last() =~= Seq::<Task>::empty());
    }
}

pub proof fn lemma_count_bounded(s: Seq<Task>, k: Kind)
    ensures
        count_kind(s, k) <= s.len(),
        count_kind(s, Kind::Io) + count_kind(s, Kind::Cpu) == s.len(),
    decreases s.len(),
{
    if s.len() > 0 {
        lemma_count_bounded(s.drop_last(), k);
    }
}

/// Running totals of a monitor that samples CPU use and busy workers.
#[derive(Debug, Clone, Copy, PartialEq, Eq, Structural)]
pub struct MonitorTotals {
    pub cpu_sum: u64,
    pub workers_sum: u64,
    pub samples: u64,
    pub peak_cpu: u32,
    pub peak_workers: usize,
}

impl MonitorTotals {
    pub fn new() -> (m: MonitorTotals)
        ensures
            m == (MonitorTotals { cpu_sum: 0, workers_sum: 0, samples: 0, peak_cpu: 0, peak_workers: 0 }),
    {
        MonitorTotals { cpu_sum: 0, workers_sum: 0, samples: 0, peak_cpu: 0, peak_workers: 0 }
    }

    /// Adds one sample: the sums grow by the sample, the count by one, and the
    /// peaks become the larger of the old peak and the sample.
    pub fn record(&mut self, cpu: u32, busy: usize)
        requires
            old(self).cpu_sum + cpu <= u64::MAX,
            old(self).workers_sum + busy <= u64::MAX,
            old(self).samples < u64::MAX,
        ensures
            final(self).cpu_sum == old(self).cpu_sum + cpu,
            final(self).workers_sum == old(self).workers_sum + busy,
            final(self).samples == old(self).samples + 1,
            final(self).peak_cpu == if cpu > old(self).peak_cpu { cpu } else { old(self).peak_cpu },
            final(self).peak_workers == if busy > old(self).peak_workers { busy } else { old(self).peak_workers },
    {
        self.cpu_sum = self.cpu_sum + cpu as u64;
        self.workers_sum = self.workers_sum + busy as u64;
        self.samples = self.samples + 1;
        if cpu > self.peak_cpu {
            self.peak_cpu = cpu;
        }
        if busy > self.peak_workers {
            self.peak_workers = busy;
        }
    }
}

} // verus!
