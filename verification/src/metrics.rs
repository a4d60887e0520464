//! Run metrics folded from a stream of events (enqueued, started, finished)
//! by a monitor that alone owns the statistics, and the deterministic
//! workload plan of that run. Instants are nanoseconds since the run
//! began, and spans and their sums are nanoseconds too.
use vstd::prelude::*;
use std::collections::HashMap;

verus! {

#[derive(Debug, Clone, Copy, PartialEq, Eq, Structural)]
pub enum TaskKind {
    Cpu,
    Io,
}

#[derive(Debug, Clone, Copy, PartialEq, Eq, Structural)]
pub enum MetricEvent {
    Enqueued { task_id: usize, kind: TaskKind },
    Started {
        worker_id: usize,
        task_id: usize,
        kind: TaskKind,
        arrival_ns: u64,
        enqueue_ns: u64,
        start_ns: u64,
    },
    Finished {
        worker_id: usize,
        task_id: usize,
        kind: TaskKind,
        arrival_ns: u64,
        start_ns: u64,
        finish_ns: u64,
    },
}

/// Elapsed time from `from` to `to`, zero when `to` is earlier.
pub open spec fn since(to: u64, from: u64) -> u64 {
    if to >= from { (to - from) as u64 } else { 0 }
}

/// The value stored for `k`, zero when absent.
pub open spec fn get_or_zero<V: Integer>(m: Map<usize, V>, k: usize) -> int {
    if m.contains_key(k) { m[k] as int } else { 0 }
}

pub struct Stats {
    pub total_enqueued: usize,
    pub total_started: usize,
    pub total_finished: usize,
    pub cpu_finished: usize,
    pub io_finished: usize,
    pub queue_depth: usize,
    pub max_queue_depth: usize,
    pub sum_wait: u64,
    pub max_wait: u64,
    pub sum_turnaround: u64,
    pub started_at: Option<u64>,
    pub finished_at: Option<u64>,
    pub busy_by_worker: HashMap<usize, u64>,
    pub tasks_by_worker: HashMap<usize, usize>,
    pub queued_cpu: usize,
    pub queued_io: usize,
    pub last_task_id_seen: Option<usize>,
}

impl Stats {
    pub fn new() -> (s: Stats)
        ensures
            s.total_enqueued == 0 && s.total_started == 0 && s.total_finished == 0,
            s.cpu_finished == 0 && s.io_finished == 0,
            s.queue_depth == 0 && s.max_queue_depth == 0,
            s.sum_wait == 0 && s.max_wait == 0 && s.sum_turnaround == 0,
            s.started_at is None && s.finished_at is None,
            s.busy_by_worker@ == Map::<usize, u64>::empty(),
            s.tasks_by_worker@ == Map::<usize, usize>::empty(),
            s.queued_cpu == 0 && s.queued_io == 0,
            s.last_task_id_seen is None,
    {
        Stats {
            total_enqueued: 0,
            total_started: 0,
            total_finished: 0,
            cpu_finished: 0,
            io_finished: 0,
            queue_depth: 0,
            max_queue_depth: 0,
            sum_wait: 0,
            max_wait: 0,
            sum_turnaround: 0,
            started_at: None,
            finished_at: None,
            busy_by_worker: HashMap::new(),
            tasks_by_worker: HashMap::new(),
            queued_cpu: 0,
            queued_io: 0,
            last_task_id_seen: None,
        }
    }

    /// None of the counters or sums that `event` advances is at its limit.
    pub open spec fn can_apply(&self, event: MetricEvent) -> bool {
        match event {
            MetricEvent::Enqueued { kind, .. } => {
                &&& self.total_enqueued < usize::MAX
                &&& self.queue_depth < usize::MAX
                &&& (kind == TaskKind::Cpu ==> self.queued_cpu < usize::MAX)
                &&& (kind == TaskKind::Io ==> self.queued_io < usize::MAX)
            },
            MetricEvent::Started { enqueue_ns, start_ns, .. } => {
                &&& self.total_started < usize::MAX
                &&& self.sum_wait + since(start_ns, enqueue_ns) <= u64::MAX
            },
            MetricEvent::Finished { worker_id, kind, arrival_ns, start_ns, finish_ns, .. } => {
                &&& self.total_finished < usize::MAX
                &&& (kind == TaskKind::Cpu ==> self.cpu_finished < usize::MAX)
                &&& (kind == TaskKind::Io ==> self.io_finished < usize::MAX)
                &&& self.sum_turnaround + since(finish_ns, arrival_ns) <= u64::MAX
                &&& get_or_zero(self.busy_by_worker@, worker_id) + since(finish_ns, start_ns) <= u64::MAX
                &&& get_or_zero(self.tasks_by_worker@, worker_id) < usize::MAX
            },
        }
    }

    /// Folds one event into the statistics.
    ///   - Enqueued: one more enqueued and one more queued (overall and of its
    ///     kind); the deepest queue seen is updated.
    ///   - Started: one more started, one less queued (never below zero,
    ///     overall and of its kind); the wait from enqueue to start is added
    ///     and the largest wait updated; the run's start is the earliest
    ///     arrival seen by a start.
    ///   - Finished: one more finished (overall and of its kind); the
    ///     turnaround from arrival to finish is added; the worker's busy time
    ///     grows by start to finish and its task count by one; the run's end
    ///     is the latest finish.
    /// Every event records its task id as the last one seen.
    pub fn apply(&mut self, event: MetricEvent)
        requires
            old(self).can_apply(event),
        ensures
            match event {
                MetricEvent::Enqueued { task_id, kind } => {
                    &&& final(self).total_enqueued == old(self).total_enqueued + 1
                    &&& final(self).queue_depth == old(self).queue_depth + 1
                    &&& final(self).max_queue_depth == if old(self).max_queue_depth >= old(self).queue_depth + 1 {
                        old(self).max_queue_depth as int
                    } else {
                        old(self).queue_depth + 1
                    }
                    &&& final(self).queued_cpu == old(self).queued_cpu + if kind == TaskKind::Cpu { 1int } else { 0 }
                    &&& final(self).queued_io == old(self).queued_io + if kind == TaskKind::Io { 1int } else { 0 }
                    &&& final(self).last_task_id_seen == Some(task_id)
                    &&& final(self).total_started == old(self).total_started
                    &&& final(self).total_finished == old(self).total_finished
                    &&& final(self).cpu_finished == old(self).cpu_finished
                    &&& final(self).io_finished == old(self).io_finished
                    &&& final(self).sum_wait == old(self).sum_wait
                    &&& final(self).max_wait == old(self).max_wait
                    &&& final(self).sum_turnaround == old(self).sum_turnaround
                    &&& final(self).started_at == old(self).started_at
                    &&& final(self).finished_at == old(self).finished_at
                    &&& final(self).busy_by_worker@ == old(self).busy_by_worker@
                    &&& final(self).tasks_by_worker@ == old(self).tasks_by_worker@
                },
                MetricEvent::Started { task_id, kind, arrival_ns, enqueue_ns, start_ns, .. } => {
                    let wait = since(start_ns, enqueue_ns);
                    &&& final(self).total_started == old(self).total_started + 1
                    &&& final(self).queue_depth == if old(self).queue_depth >= 1 { old(self).queue_depth - 1 } else { 0 }
                    &&& final(self).sum_wait == old(self).sum_wait + wait
                    &&& final(self).max_wait == if old(self).max_wait >= wait { old(self).max_wait } else { wait }
                    &&& final(self).started_at == Some(match old(self).started_at {
                        Some(o) => if o <= arrival_ns { o } else { arrival_ns },
                        None => arrival_ns,
                    })
                    &&& final(self).queued_cpu == if kind == TaskKind::Cpu && old(self).queued_cpu >= 1 {
                        old(self).queued_cpu - 1
                    } else if kind == TaskKind::Cpu {
                        0
                    } else {
                        old(self).queued_cpu as int
                    }
                    &&& final(self).queued_io == if kind == TaskKind::Io && old(self).queued_io >= 1 {
                        old(self).queued_io - 1
                    } else if kind == TaskKind::Io {
                        0
                    } else {
                        old(self).queued_io as int
                    }
                    &&& final(self).last_task_id_seen == Some(task_id)
                    &&& final(self).total_enqueued == old(self).total_enqueued
                    &&& final(self).max_queue_depth == old(self).max_queue_depth
                    &&& final(self).total_finished == old(self).total_finished
                    &&& final(self).cpu_finished == old(self).cpu_finished
                    &&& final(self).io_finished == old(self).io_finished
                    &&& final(self).sum_turnaround == old(self).sum_turnaround
                    &&& final(self).finished_at == old(self).finished_at
                    &&& final(self).busy_by_worker@ == old(self).busy_by_worker@
                    &&& final(self).tasks_by_worker@ == old(self).tasks_by_worker@
                },
                MetricEvent::Finished { worker_id, task_id, kind, arrival_ns, start_ns, finish_ns } => {
                    &&& final(self).total_finished == old(self).total_finished + 1
                    &&& final(self).cpu_finished == old(self).cpu_finished + if kind == TaskKind::Cpu { 1int } else { 0 }
                    &&& final(self).io_finished == old(self).io_finished + if kind == TaskKind::Io { 1int } else { 0 }
                    &&& final(self).sum_turnaround == old(self).sum_turnaround + since(finish_ns, arrival_ns)
                    &&& final(self).busy_by_worker@ == old(self).busy_by_worker@.insert(
                        worker_id,
                        (get_or_zero(old(self).busy_by_worker@, worker_id) + since(finish_ns, start_ns)) as u64,
                    )
                    &&& final(self).tasks_by_worker@ == old(self).tasks_by_worker@.insert(
                        worker_id,
                        (get_or_zero(old(self).tasks_by_worker@, worker_id) + 1) as usize,
                    )
                    &&& final(self).finished_at == Some(match old(self).finished_at {
                        Some(o) => if o >= finish_ns { o } else { finish_ns },
                        None => finish_ns,
                    })
                    &&& final(self).last_task_id_seen == Some(task_id)
                    &&& final(self).total_enqueued == old(self).total_enqueued
                    &&& final(self).total_started == old(self).total_started
                    &&& final(self).queue_depth == old(self).queue_depth
                    &&& final(self).max_queue_depth == old(self).max_queue_depth
                    &&& final(self).sum_wait == old(self).sum_wait
                    &&& final(self).max_wait == old(self).max_wait
                    &&& final(self).started_at == old(self).started_at
                    &&& final(self).queued_cpu == old(self).queued_cpu
                    &&& final(self).queued_io == old(self).queued_io
                },
            },
    {
        broadcast use vstd::std_specs::hash::group_hash_axioms;
        match event {
            MetricEvent::Enqueued { task_id, kind } => {
                self.total_enqueued = self.total_enqueued + 1;
                self.queue_depth = self.queue_depth + 1;
                if self.queue_depth > self.max_queue_depth {
                    self.max_queue_depth = self.queue_depth;
                }
                match kind {
                    TaskKind::Cpu => self.queued_cpu = self.queued_cpu + 1,
                    TaskKind::Io => self.queued_io = self.queued_io + 1,
                }
                self.last_task_id_seen = Some(task_id);
            },
            MetricEvent::Started { worker_id: _, task_id, kind, arrival_ns, enqueue_ns, start_ns } => {
                self.total_started = self.total_started + 1;
                self.queue_depth = self.queue_depth.saturating_sub(1);
                let wait = start_ns.saturating_sub(enqueue_ns);
                self.sum_wait = self.sum_wait + wait;
                if wait > self.max_wait {
                    self.max_wait = wait;
                }
                self.started_at = Some(
                    match self.started_at {
                        Some(old) => if old <= arrival_ns { old } else { arrival_ns },
                        None => arrival_ns,
                    },
                );
                match kind {
                    TaskKind::Cpu => self.queued_cpu = self.queued_cpu.saturating_sub(1),
                    TaskKind::Io => self.queued_io = self.queued_io.saturating_sub(1),
                }
                self.last_task_id_seen = Some(task_id);
            },
            MetricEvent::Finished { worker_id, task_id, kind, arrival_ns, start_ns, finish_ns } => {
                self.total_finished = self.total_finished + 1;
                match kind {
                    TaskKind::Cpu => self.cpu_finished = self.cpu_finished + 1,
                    TaskKind::Io => self.io_finished = self.io_finished + 1,
                }
                let turnaround = finish_ns.saturating_sub(arrival_ns);
                let busy = finish_ns.saturating_sub(start_ns);
                self.sum_turnaround = self.sum_turnaround + turnaround;
                let old_busy: u64 = match self.busy_by_worker.get(&worker_id) {
                    Some(b) => *b,
                    None => 0,
                };
                self.busy_by_worker.insert(worker_id, old_busy + busy);
                let old_count: usize = match self.tasks_by_worker.get(&worker_id) {
                    Some(c) => *c,
                    None => 0,
                };
                self.tasks_by_worker.insert(worker_id, old_count + 1);
                self.finished_at = Some(
                    match self.finished_at {
                        Some(old) => if old >= finish_ns { old } else { finish_ns },
                        None => finish_ns,
                    },
                );
                self.last_task_id_seen = Some(task_id);
            },
        }
    }

    /// (busy time, task count) of a worker, zero for one never seen.
    pub fn worker_totals(&self, worker_id: usize) -> (r: (u64, usize))
        ensures
            r.0 == get_or_zero(self.busy_by_worker@, worker_id),
            r.1 == get_or_zero(self.tasks_by_worker@, worker_id),
    {
        broadcast use vstd::std_specs::hash::group_hash_axioms;
        let busy: u64 = match self.busy_by_worker.get(&worker_id) {
            Some(b) => *b,
            None => 0,
        };
        let count: usize = match self.tasks_by_worker.get(&worker_id) {
            Some(c) => *c,
            None => 0,
        };
        (busy, count)
    }

    /// Time from the run's start to its end, once both are known.
    pub fn makespan(&self) -> (r: Option<u64>)
        ensures
            r == match (self.started_at, self.finished_at) {
                (Some(s), Some(e)) => Some(since(e, s)),
                _ => None,
            },
    {
        match (self.started_at, self.finished_at) {
            (Some(start), Some(end)) => Some(end.saturating_sub(start)),
            _ => None,
        }
    }
}

/// Entry `i` of the plan: every third task is CPU; durations cycle through
/// 180, 220, 260, 300 ms for CPU and 50, 70, 90, 110 ms for IO; the gap
/// before arrival is 0 ms every eighth task, else 25 ms every fifth, else
/// 40 ms.
pub open spec fn plan_entry(i: int) -> (TaskKind, u64, u64) {
    let kind = if i % 3 == 0 { TaskKind::Cpu } else { TaskKind::Io };
    let duration: u64 = if kind == TaskKind::Cpu {
        if i % 4 == 0 { 180 } else if i % 4 == 1 { 220 } else if i % 4 == 2 { 260 } else { 300 }
    } else {
        if i % 4 == 0 { 50 } else if i % 4 == 1 { 70 } else if i % 4 == 2 { 90 } else { 110 }
    };
    let gap: u64 = if i % 8 == 0 { 0 } else if i % 5 == 0 { 25 } else { 40 };
    (kind, duration, gap)
}

/// The deterministic workload: (kind, duration ms, gap before arrival ms)
/// for each of `count` tasks.
pub fn build_task_plan(count: usize) -> (plan: Vec<(TaskKind, u64, u64)>)
    ensures
        plan@.len() == count,
        forall|i: int| 0 <= i < count ==> #[trigger] plan@[i] == plan_entry(i),
{
    let cpu_durations: [u64; 4] = [180, 220, 260, 300];
    let io_durations: [u64; 4] = [50, 70, 90, 110];
    let mut plan: Vec<(TaskKind, u64, u64)> = Vec::with_capacity(count);
    let mut i: usize = 0;
    while i < count
        invariant
            i <= count,
            plan@.len() == i,
            cpu_durations@ == seq![180u64, 220, 260, 300],
            io_durations@ == seq![50u64, 70, 90, 110],
            forall|k: int| 0 <= k < i ==> #[trigger] plan@[k] == plan_entry(k),
        decreases count - i,
    {
        let kind = if i % 3 == 0 { TaskKind::Cpu } else { TaskKind::Io };
        let duration = match kind {
            TaskKind::Cpu => cpu_durations[i % 4],
            TaskKind::Io => io_durations[i % 4],
        };
        let gap: u64 = if i % 8 == 0 {
            0
        } else if i % 5 == 0 {
            25
        } else {
            40
        };
        plan.push((kind, duration, gap));
        i = i + 1;
    }
    plan
}

} // verus!
