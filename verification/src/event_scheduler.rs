//! Event-driven scheduler: one thread owns this state and reacts to events
//! (a new task, a worker finished, the producer is done); after each event it
//! dispatches as many waiting tasks to free workers as the policy allows.
//! CPU tasks each take half of the CPU budget, so at most two run at once.
//! Instants are nanoseconds since the run began.
use vstd::prelude::*;

verus! {

pub const CPU_BUDGET: u32 = 100;
pub const CPU_TASK_COST: u32 = 50;
/// Free workers beyond this count let CPU work jump ahead of older IO work.
pub const RESERVE_WORKERS_FOR_CPU: usize = 2;

#[derive(Debug, Clone, Copy, PartialEq, Eq, Structural)]
pub enum TaskKind {
    Io,
    Cpu,
}

#[derive(Debug, Clone, Copy, PartialEq, Eq, Structural)]
pub struct Task {
    pub id: usize,
    pub kind: TaskKind,
    pub arrival_ns: u64,
}

/// Waiting time of the head of a queue at `now_ns` (zero for an empty queue).
pub open spec fn head_wait(q: Seq<Task>, now_ns: u64) -> u64 {
    if q.len() > 0 && now_ns >= q[0].arrival_ns { (now_ns - q[0].arrival_ns) as u64 } else { 0 }
}

/// Which queue the policy serves next, if any:
///   - only one queue has work: that queue (CPU only if the budget has room);
///   - both have work: CPU if the budget has room and either CPU has waited
///     at least as long as IO or more than the reserved number of workers is
///     free; otherwise IO.
pub open spec fn pick_kind(cpu_q: Seq<Task>, io_q: Seq<Task>, free: nat, cpu_in_use: u32, now_ns: u64) -> Option<
    TaskKind,
> {
    let can_run_cpu = cpu_in_use + CPU_TASK_COST <= CPU_BUDGET;
    if cpu_q.len() == 0 && io_q.len() == 0 {
        None
    } else if io_q.len() == 0 {
        if can_run_cpu { Some(TaskKind::Cpu) } else { None }
    } else if cpu_q.len() == 0 {
        Some(TaskKind::Io)
    } else if can_run_cpu && (head_wait(cpu_q, now_ns) >= head_wait(io_q, now_ns) || free
        > RESERVE_WORKERS_FOR_CPU) {
        Some(TaskKind::Cpu)
    } else {
        Some(TaskKind::Io)
    }
}

/// The result of dispatching until no free worker is left or the policy
/// picks nothing: the (worker, task) assignments in order, then the CPU
/// queue, IO queue, free workers and CPU in use afterwards.
pub open spec fn dispatch_all(cpu_q: Seq<Task>, io_q: Seq<Task>, free: Seq<usize>, cpu_in_use: u32, now_ns: u64) -> (
    Seq<(usize, Task)>,
    Seq<Task>,
    Seq<Task>,
    Seq<usize>,
    u32,
)
    decreases free.len(),
{
    if free.len() == 0 {
        (Seq::empty(), cpu_q, io_q, free, cpu_in_use)
    } else {
        match pick_kind(cpu_q, io_q, free.len(), cpu_in_use, now_ns) {
            None => (Seq::empty(), cpu_q, io_q, free, cpu_in_use),
            Some(TaskKind::Cpu) => {
                let rest = dispatch_all(
                    cpu_q.drop_first(),
                    io_q,
                    free.drop_last(),
                    (cpu_in_use + CPU_TASK_COST) as u32,
                    now_ns,
                );
                (seq![(free.last(), cpu_q[0])] + rest.0, rest.1, rest.2, rest.3, rest.4)
            },
            Some(TaskKind::Io) => {
                let rest = dispatch_all(cpu_q, io_q.drop_first(), free.drop_last(), cpu_in_use, now_ns);
                (seq![(free.last(), io_q[0])] + rest.0, rest.1, rest.2, rest.3, rest.4)
            },
        }
    }
}

pub struct SchedulerState {
    pub cpu_queue: std::collections::VecDeque<Task>,
    pub io_queue: std::collections::VecDeque<Task>,
    pub free_workers: Vec<usize>,
    pub cpu_in_use: u32,
    pub running_tasks: usize,
    pub producer_done: bool,
}

impl SchedulerState {
    /// The budget is never exceeded and each queue holds its own kind.
    pub open spec fn wf(&self) -> bool {
        &&& self.cpu_in_use <= CPU_BUDGET
        &&& forall|i: int| 0 <= i < self.cpu_queue@.len() ==> (#[trigger] self.cpu_queue@[i]).kind == TaskKind::Cpu
        &&& forall|i: int| 0 <= i < self.io_queue@.len() ==> (#[trigger] self.io_queue@[i]).kind == TaskKind::Io
    }

    pub open spec fn dispatch_outcome(&self, now_ns: u64) -> (
        Seq<(usize, Task)>,
        Seq<Task>,
        Seq<Task>,
        Seq<usize>,
        u32,
    ) {
        dispatch_all(self.cpu_queue@, self.io_queue@, self.free_workers@, self.cpu_in_use, now_ns)
    }

    /// Empty queues, nothing running, workers 0..num_workers free (the last
    /// one is handed out first).
    pub fn new(num_workers: usize) -> (s: SchedulerState)
        ensures
            s.wf(),
            s.cpu_queue@ == Seq::<Task>::empty(),
            s.io_queue@ == Seq::<Task>::empty(),
            s.free_workers@ == Seq::new(num_workers as nat, |i: int| i as usize),
            s.cpu_in_use == 0,
            s.running_tasks == 0,
            !s.producer_done,
    {
        let mut free_workers: Vec<usize> = Vec::new();
        let mut i: usize = 0;
        while i < num_workers
            invariant
                i <= num_workers,
                free_workers@ == Seq::new(i as nat, |k: int| k as usize),
            decreases num_workers - i,
        {
            free_workers.push(i);
            i = i + 1;
            assert(free_workers@ =~= Seq::new(i as nat, |k: int| k as usize));
        }
        SchedulerState {
            cpu_queue: std::collections::VecDeque::new(),
            io_queue: std::collections::VecDeque::new(),
            free_workers,
            cpu_in_use: 0,
            running_tasks: 0,
            producer_done: false,
        }
    }

    /// Whether one more CPU task fits the budget.
    pub fn can_run_cpu(&self) -> (r: bool)
        requires
            self.wf(),
        ensures
            r == (self.cpu_in_use + CPU_TASK_COST <= CPU_BUDGET),
    {
        self.cpu_in_use + CPU_TASK_COST <= CPU_BUDGET
    }

    /// How long the oldest CPU task has waited at `now_ns` (zero if none).
    pub fn oldest_cpu_wait(&self, now_ns: u64) -> (r: u64)
        ensures
            r == head_wait(self.cpu_queue@, now_ns),
    {
        if self.cpu_queue.len() > 0 {
            now_ns.saturating_sub(self.cpu_queue[0].arrival_ns)
        } else {
            0
        }
    }

    /// How long the oldest IO task has waited at `now_ns` (zero if none).
    pub fn oldest_io_wait(&self, now_ns: u64) -> (r: u64)
        ensures
            r == head_wait(self.io_queue@, now_ns),
    {
        if self.io_queue.len() > 0 {
            now_ns.saturating_sub(self.io_queue[0].arrival_ns)
        } else {
            0
        }
    }

    /// The producer is done, nothing waits and nothing runs.
    pub fn is_drained(&self) -> (r: bool)
        ensures
            r == (self.producer_done && self.cpu_queue@.len() == 0 && self.io_queue@.len() == 0
                && self.running_tasks == 0),
    {
        self.producer_done && self.cpu_queue.len() == 0 && self.io_queue.len() == 0 && self.running_tasks == 0
    }
}

/// Takes the next task the policy picks (see `pick_kind`) off its queue.
pub fn pick_next_task(state: &mut SchedulerState, now_ns: u64) -> (r: Option<Task>)
    requires
        old(state).wf(),
    ensures
        final(state).wf(),
        final(state).free_workers@ == old(state).free_workers@,
        final(state).cpu_in_use == old(state).cpu_in_use,
        final(state).running_tasks == old(state).running_tasks,
        final(state).producer_done == old(state).producer_done,
        match pick_kind(
            old(state).cpu_queue@,
            old(state).io_queue@,
            old(state).free_workers@.len(),
            old(state).cpu_in_use,
            now_ns,
        ) {
            None => r is None && final(state).cpu_queue@ == old(state).cpu_queue@ && final(state).io_queue@ == old(
                state,
            ).io_queue@,
            Some(TaskKind::Cpu) => r == Some(old(state).cpu_queue@[0]) && final(state).cpu_queue@ == old(
                state,
            ).cpu_queue@.drop_first() && final(state).io_queue@ == old(state).io_queue@,
            Some(TaskKind::Io) => r == Some(old(state).io_queue@[0]) && final(state).io_queue@ == old(
                state,
            ).io_queue@.drop_first() && final(state).cpu_queue@ == old(state).cpu_queue@,
        },
{
    let has_cpu = state.cpu_queue.len() > 0;
    let has_io = state.io_queue.len() > 0;
    if !has_cpu && !has_io {
        None
    } else if has_cpu && !has_io {
        if state.can_run_cpu() {
            state.cpu_queue.pop_front()
        } else {
            None
        }
    } else if !has_cpu && has_io {
        state.io_queue.pop_front()
    } else {
        let cpu_wait = state.oldest_cpu_wait(now_ns);
        let io_wait = state.oldest_io_wait(now_ns);
        if state.can_run_cpu() && (cpu_wait >= io_wait || state.free_workers.len() > RESERVE_WORKERS_FOR_CPU) {
            state.cpu_queue.pop_front()
        } else {
            state.io_queue.pop_front()
        }
    }
}

/// Dispatches while a worker is free and the policy picks a task: each
/// assignment takes the last free worker, books the CPU cost for CPU work and
/// counts the task as running. Returns the assignments in order.
pub fn dispatch_ready_tasks(state: &mut SchedulerState, now_ns: u64) -> (sent: Vec<(usize, Task)>)
    requires
        old(state).wf(),
        old(state).running_tasks + old(state).dispatch_outcome(now_ns).0.len() <= usize::MAX,
    ensures
        final(state).wf(),
        ({
            let out = old(state).dispatch_outcome(now_ns);
            &&& sent@ == out.0
            &&& final(state).cpu_queue@ == out.1
            &&& final(state).io_queue@ == out.2
            &&& final(state).free_workers@ == out.3
            &&& final(state).cpu_in_use == out.4
            &&& final(state).running_tasks == old(state).running_tasks + out.0.len()
        }),
        final(state).producer_done == old(state).producer_done,
{
    let mut sent: Vec<(usize, Task)> = Vec::new();
    while state.free_workers.len() > 0
        invariant_except_break
            state.wf(),
            state.producer_done == old(state).producer_done,
            sent@ + state.dispatch_outcome(now_ns).0 == old(state).dispatch_outcome(now_ns).0,
            state.dispatch_outcome(now_ns).1 == old(state).dispatch_outcome(now_ns).1,
            state.dispatch_outcome(now_ns).2 == old(state).dispatch_outcome(now_ns).2,
            state.dispatch_outcome(now_ns).3 == old(state).dispatch_outcome(now_ns).3,
            state.dispatch_outcome(now_ns).4 == old(state).dispatch_outcome(now_ns).4,
            state.running_tasks == old(state).running_tasks + sent@.len(),
            old(state).running_tasks + old(state).dispatch_outcome(now_ns).0.len() <= usize::MAX,
        ensures
            state.wf(),
            state.producer_done == old(state).producer_done,
            sent@ == old(state).dispatch_outcome(now_ns).0,
            state.cpu_queue@ == old(state).dispatch_outcome(now_ns).1,
            state.io_queue@ == old(state).dispatch_outcome(now_ns).2,
            state.free_workers@ == old(state).dispatch_outcome(now_ns).3,
            state.cpu_in_use == old(state).dispatch_outcome(now_ns).4,
            state.running_tasks == old(state).running_tasks + sent@.len(),
        decreases state.free_workers@.len(),
    {
        let ghost before = state.dispatch_outcome(now_ns);
        let task = match pick_next_task(state, now_ns) {
            Some(t) => t,
            None => {
                assert(sent@ + Seq::<(usize, Task)>::empty() =~= sent@);
                break;
            },
        };
        let worker_id = state.free_workers.pop().unwrap();
        if task.kind == TaskKind::Cpu {
            state.cpu_in_use = state.cpu_in_use + CPU_TASK_COST;
        }
        proof {
            let after = state.dispatch_outcome(now_ns);
            assert(before.0 =~= seq![(worker_id, task)] + after.0);
            assert(sent@.push((worker_id, task)) + after.0 =~= sent@ + before.0);
        }
        state.running_tasks = state.running_tasks + 1;
        sent.push((worker_id, task));
    }
    proof {
        if state.free_workers@.len() == 0 {
            assert(sent@ + Seq::<(usize, Task)>::empty() =~= sent@);
        }
    }
    sent
}

/// Puts back one dispatch whose hand-off failed: the task returns to the
/// front of its queue, the worker to the free list, its CPU cost to the
/// budget, and it no longer counts as running.
pub fn undo_dispatch(state: &mut SchedulerState, worker_id: usize, task: Task)
    requires
        old(state).wf(),
        old(state).running_tasks >= 1,
        task.kind == TaskKind::Cpu ==> old(state).cpu_in_use >= CPU_TASK_COST,
    ensures
        final(state).wf(),
        final(state).running_tasks == old(state).running_tasks - 1,
        final(state).free_workers@ == old(state).free_workers@.push(worker_id),
        final(state).producer_done == old(state).producer_done,
        task.kind == TaskKind::Cpu ==> final(state).cpu_in_use == old(state).cpu_in_use - CPU_TASK_COST
            && final(state).cpu_queue@ == seq![task] + old(state).cpu_queue@ && final(state).io_queue@ == old(
            state,
        ).io_queue@,
        task.kind == TaskKind::Io ==> final(state).cpu_in_use == old(state).cpu_in_use && final(state).io_queue@
            == seq![task] + old(state).io_queue@ && final(state).cpu_queue@ == old(state).cpu_queue@,
{
    state.running_tasks = state.running_tasks - 1;
    state.free_workers.push(worker_id);
    if task.kind == TaskKind::Cpu {
        state.cpu_in_use = state.cpu_in_use - CPU_TASK_COST;
        state.cpu_queue.push_front(task);
    } else {
        state.io_queue.push_front(task);
    }
    proof {
        assert forall|i: int| 0 <= i < state.cpu_queue@.len() implies (#[trigger] state.cpu_queue@[i]).kind
            == TaskKind::Cpu by {
            if task.kind == TaskKind::Cpu && i > 0 {
                assert(state.cpu_queue@[i] == old(state).cpu_queue@[i - 1]);
            }
        }
        assert forall|i: int| 0 <= i < state.io_queue@.len() implies (#[trigger] state.io_queue@[i]).kind
            == TaskKind::Io by {
            if task.kind == TaskKind::Io && i > 0 {
                assert(state.io_queue@[i] == old(state).io_queue@[i - 1]);
            }
        }
    }
}

/// The tasks of kind `k` among the assignments, in order.
pub open spec fn tasks_sent(sent: Seq<(usize, Task)>, k: TaskKind) -> Seq<Task>
    decreases sent.len(),
{
    if sent.len() == 0 {
        Seq::empty()
    } else {
        let rest = tasks_sent(sent.drop_first(), k);
        if sent[0].1.kind == k { seq![sent[0].1] + rest } else { rest }
    }
}

/// The workers of the assignments, in order.
pub open spec fn workers_sent(sent: Seq<(usize, Task)>) -> Seq<usize> {
    sent.map_values(|p: (usize, Task)| p.0)
}

/// Dispatching loses and invents nothing: the tasks handed out are the fronts
/// of their queues, in order; the workers used are the tail of the free list,
/// the last one first; and the CPU booked is one task cost per CPU task.
/// Putting back each assignment with `undo_dispatch`, the latest first,
/// therefore restores the queues, the free list and the budget.
pub proof fn lemma_dispatch_conserves(cpu_q: Seq<Task>, io_q: Seq<Task>, free: Seq<usize>, used: u32, now_ns: u64)
    requires
        forall|i: int| 0 <= i < cpu_q.len() ==> (#[trigger] cpu_q[i]).kind == TaskKind::Cpu,
        forall|i: int| 0 <= i < io_q.len() ==> (#[trigger] io_q[i]).kind == TaskKind::Io,
        used <= CPU_BUDGET,
    ensures
        ({
            let out = dispatch_all(cpu_q, io_q, free, used, now_ns);
            &&& cpu_q == tasks_sent(out.0, TaskKind::Cpu) + out.1
            &&& io_q == tasks_sent(out.0, TaskKind::Io) + out.2
            &&& free == out.3 + workers_sent(out.0).reverse()
            &&& out.4 == used + CPU_TASK_COST * tasks_sent(out.0, TaskKind::Cpu).len()
            &&& out.4 <= CPU_BUDGET
        }),
    decreases free.len(),
{
    let out = dispatch_all(cpu_q, io_q, free, used, now_ns);
    if free.len() == 0 {
        assert(out.0 =~= Seq::<(usize, Task)>::empty());
        assert(workers_sent(out.0).reverse() =~= Seq::<usize>::empty());
        assert(free + Seq::<usize>::empty() =~= free);
        assert(Seq::<Task>::empty() + cpu_q =~= cpu_q);
        assert(Seq::<Task>::empty() + io_q =~= io_q);
    } else {
        match pick_kind(cpu_q, io_q, free.len(), used, now_ns) {
            None => {
                assert(workers_sent(out.0).reverse() =~= Seq::<usize>::empty());
                assert(free + Seq::<usize>::empty() =~= free);
                assert(Seq::<Task>::empty() + cpu_q =~= cpu_q);
                assert(Seq::<Task>::empty() + io_q =~= io_q);
            },
            Some(TaskKind::Cpu) => {
                let cq = cpu_q.drop_first();
                assert forall|i: int| 0 <= i < cq.len() implies (#[trigger] cq[i]).kind == TaskKind::Cpu by {
                    assert(cq[i] == cpu_q[i + 1]);
                }
                let rest = dispatch_all(cq, io_q, free.drop_last(), (used + CPU_TASK_COST) as u32, now_ns);
                lemma_dispatch_conserves(cq, io_q, free.drop_last(), (used + CPU_TASK_COST) as u32, now_ns);
                let head = (free.last(), cpu_q[0]);
                assert(out.0 == seq![head] + rest.0);
                assert((seq![head] + rest.0).drop_first() =~= rest.0);
                assert(tasks_sent(out.0, TaskKind::Cpu) == seq![cpu_q[0]] + tasks_sent(rest.0, TaskKind::Cpu));
                assert(tasks_sent(out.0, TaskKind::Io) == tasks_sent(rest.0, TaskKind::Io));
                assert(cq == tasks_sent(rest.0, TaskKind::Cpu) + rest.1);
                assert(cpu_q =~= seq![cpu_q[0]] + cq);
                assert(seq![cpu_q[0]] + (tasks_sent(rest.0, TaskKind::Cpu) + rest.1) =~= (seq![cpu_q[0]] + tasks_sent(
                    rest.0,
                    TaskKind::Cpu,
                )) + rest.1);
                assert(workers_sent(out.0) =~= seq![free.last()] + workers_sent(rest.0));
                assert(workers_sent(out.0).reverse() =~= workers_sent(rest.0).reverse().push(free.last()));
                assert(free =~= free.drop_last().push(free.last()));
                assert(free =~= rest.3 + workers_sent(out.0).reverse());
            },
            Some(TaskKind::Io) => {
                let iq = io_q.drop_first();
                assert forall|i: int| 0 <= i < iq.len() implies (#[trigger] iq[i]).kind == TaskKind::Io by {
                    assert(iq[i] == io_q[i + 1]);
                }
                let rest = dispatch_all(cpu_q, iq, free.drop_last(), used, now_ns);
                lemma_dispatch_conserves(cpu_q, iq, free.drop_last(), used, now_ns);
                let head = (free.last(), io_q[0]);
                assert(out.0 == seq![head] + rest.0);
                assert((seq![head] + rest.0).drop_first() =~= rest.0);
                assert(tasks_sent(out.0, TaskKind::Io) == seq![io_q[0]] + tasks_sent(rest.0, TaskKind::Io));
                assert(tasks_sent(out.0, TaskKind::Cpu) == tasks_sent(rest.0, TaskKind::Cpu));
                assert(iq == tasks_sent(rest.0, TaskKind::Io) + rest.2);
                assert(io_q =~= seq![io_q[0]] + iq);
                assert(seq![io_q[0]] + (tasks_sent(rest.0, TaskKind::Io) + rest.2) =~= (seq![io_q[0]] + tasks_sent(
                    rest.0,
                    TaskKind::Io,
                )) + rest.2);
                assert(workers_sent(out.0) =~= seq![free.last()] + workers_sent(rest.0));
                assert(workers_sent(out.0).reverse() =~= workers_sent(rest.0).reverse().push(free.last()));
                assert(free =~= free.drop_last().push(free.last()));
                assert(free =~= rest.3 + workers_sent(out.0).reverse());
            },
        }
    }
}

/// Dispatching goes on as long as it can: afterwards either no worker is
/// free or the policy picks nothing from what is left (so with a worker
/// free, the IO queue is empty and the CPU queue is empty or the budget has
/// no room for a CPU task); and each assignment uses up one free worker, so
/// running plus free workers stays the same.
pub proof fn lemma_dispatch_exhausts(cpu_q: Seq<Task>, io_q: Seq<Task>, free: Seq<usize>, used: u32, now_ns: u64)
    ensures
        ({
            let out = dispatch_all(cpu_q, io_q, free, used, now_ns);
            &&& out.0.len() + out.3.len() == free.len()
            &&& (out.3.len() == 0 || pick_kind(out.1, out.2, out.3.len(), out.4, now_ns) is None)
            &&& (out.3.len() > 0 ==> out.2.len() == 0 && (out.1.len() == 0 || out.4 + CPU_TASK_COST
                > CPU_BUDGET))
        }),
    decreases free.len(),
{
    if free.len() > 0 {
        match pick_kind(cpu_q, io_q, free.len(), used, now_ns) {
            None => {},
            Some(TaskKind::Cpu) => {
                lemma_dispatch_exhausts(
                    cpu_q.drop_first(),
                    io_q,
                    free.drop_last(),
                    (used + CPU_TASK_COST) as u32,
                    now_ns,
                );
            },
            Some(TaskKind::Io) => {
                lemma_dispatch_exhausts(cpu_q, io_q.drop_first(), free.drop_last(), used, now_ns);
            },
        }
    }
}

/// How long the head of `q` has waited at `now_ns` (zero if it arrived later).
pub open spec fn waited(q: Seq<Task>, now_ns: u64) -> int {
    if now_ns >= q[0].arrival_ns { now_ns - q[0].arrival_ns } else { 0 }
}

/// The policy's laws, for any queues, free-worker count, budget use and time:
///   - a CPU task is picked only when one more fits the budget (50 of 100);
///   - with both queues waiting and room in the budget, the CPU head goes
///     whenever it has waited at least as long as the IO head, and also
///     whenever more than two workers are free;
///   - with both queues waiting, the IO head goes when the CPU head cannot
///     (no room, or a younger CPU head with at most two workers free);
///   - IO work alone always goes; CPU work alone goes exactly when it fits;
///   - nothing is picked only when nothing can go.
pub proof fn lemma_pick_laws(cpu_q: Seq<Task>, io_q: Seq<Task>, free: nat, cpu_in_use: u32, now_ns: u64)
    ensures
        pick_kind(cpu_q, io_q, free, cpu_in_use, now_ns) == Some(TaskKind::Cpu) ==> cpu_q.len() > 0
            && cpu_in_use + 50 <= 100,
        pick_kind(cpu_q, io_q, free, cpu_in_use, now_ns) == Some(TaskKind::Io) ==> io_q.len() > 0,
        cpu_q.len() > 0 && io_q.len() > 0 && cpu_in_use + 50 <= 100 && waited(cpu_q, now_ns) >= waited(
            io_q,
            now_ns,
        ) ==> pick_kind(cpu_q, io_q, free, cpu_in_use, now_ns) == Some(TaskKind::Cpu),
        cpu_q.len() > 0 && io_q.len() > 0 && cpu_in_use + 50 <= 100 && free > 2 ==> pick_kind(
            cpu_q,
            io_q,
            free,
            cpu_in_use,
            now_ns,
        ) == Some(TaskKind::Cpu),
        cpu_q.len() > 0 && io_q.len() > 0 && (cpu_in_use + 50 > 100 || (waited(cpu_q, now_ns) < waited(
            io_q,
            now_ns,
        ) && free <= 2)) ==> pick_kind(cpu_q, io_q, free, cpu_in_use, now_ns) == Some(TaskKind::Io),
        cpu_q.len() == 0 && io_q.len() > 0 ==> pick_kind(cpu_q, io_q, free, cpu_in_use, now_ns) == Some(
            TaskKind::Io,
        ),
        cpu_q.len() > 0 && io_q.len() == 0 ==> (pick_kind(cpu_q, io_q, free, cpu_in_use, now_ns) == Some(
            TaskKind::Cpu,
        ) <==> cpu_in_use + 50 <= 100),
        pick_kind(cpu_q, io_q, free, cpu_in_use, now_ns) is None <==> (io_q.len() == 0 && (cpu_q.len() == 0
            || cpu_in_use + 50 > 100)),
{
}

/// The first assignment of a dispatch round follows the policy: with a
/// worker free, both queues waiting and room in the budget, the last free
/// worker gets the CPU head when it has waited at least as long as the IO
/// head (or more than two workers are free), and the IO head otherwise.
pub proof fn lemma_first_dispatch(cpu_q: Seq<Task>, io_q: Seq<Task>, free: Seq<usize>, used: u32, now_ns: u64)
    requires
        free.len() > 0,
        cpu_q.len() > 0,
        io_q.len() > 0,
    ensures
        used + 50 <= 100 && (waited(cpu_q, now_ns) >= waited(io_q, now_ns) || free.len() > 2) ==> dispatch_all(
            cpu_q,
            io_q,
            free,
            used,
            now_ns,
        ).0.len() > 0 && dispatch_all(cpu_q, io_q, free, used, now_ns).0[0] == (free.last(), cpu_q[0]),
        !(used + 50 <= 100 && (waited(cpu_q, now_ns) >= waited(io_q, now_ns) || free.len() > 2)) ==> dispatch_all(
            cpu_q,
            io_q,
            free,
            used,
            now_ns,
        ).0.len() > 0 && dispatch_all(cpu_q, io_q, free, used, now_ns).0[0] == (free.last(), io_q[0]),
{
    lemma_pick_laws(cpu_q, io_q, free.len(), used, now_ns);
}

/// What the scheduler reacts to.
#[derive(Debug, Clone, Copy, PartialEq, Eq, Structural)]
pub enum SchedulerEvent {
    NewTask(Task),
    WorkerFinished { worker_id: usize, task: Task },
    ProducerDone,
}

/// Applies one event: a new task joins the back of its queue; a finished
/// worker becomes free again, stops counting as running and, for CPU work,
/// gives its cost back; the producer's end is recorded.
pub fn apply_event(state: &mut SchedulerState, event: SchedulerEvent)
    requires
        old(state).wf(),
        event matches SchedulerEvent::WorkerFinished { task, .. } ==> old(state).running_tasks >= 1 && (task.kind
            == TaskKind::Cpu ==> old(state).cpu_in_use >= CPU_TASK_COST),
    ensures
        final(state).wf(),
        match event {
            SchedulerEvent::NewTask(t) => final(state).free_workers@ == old(state).free_workers@
                && final(state).cpu_in_use == old(state).cpu_in_use && final(state).running_tasks == old(
                state,
            ).running_tasks && final(state).producer_done == old(state).producer_done && (if t.kind
                == TaskKind::Cpu {
                final(state).cpu_queue@ == old(state).cpu_queue@.push(t) && final(state).io_queue@ == old(
                    state,
                ).io_queue@
            } else {
                final(state).io_queue@ == old(state).io_queue@.push(t) && final(state).cpu_queue@ == old(
                    state,
                ).cpu_queue@
            }),
            SchedulerEvent::WorkerFinished { worker_id, task } => final(state).free_workers@ == old(
                state,
            ).free_workers@.push(worker_id) && final(state).running_tasks == old(state).running_tasks - 1
                && final(state).cpu_in_use == (if task.kind == TaskKind::Cpu {
                old(state).cpu_in_use - CPU_TASK_COST
            } else {
                old(state).cpu_in_use as int
            }) && final(state).cpu_queue@ == old(state).cpu_queue@ && final(state).io_queue@ == old(
                state,
            ).io_queue@ && final(state).producer_done == old(state).producer_done,
            SchedulerEvent::ProducerDone => final(state).producer_done && final(state).free_workers@ == old(
                state,
            ).free_workers@ && final(state).cpu_in_use == old(state).cpu_in_use && final(state).running_tasks
                == old(state).running_tasks && final(state).cpu_queue@ == old(state).cpu_queue@
                && final(state).io_queue@ == old(state).io_queue@,
        },
{
    match event {
        SchedulerEvent::NewTask(task) => {
            match task.kind {
                TaskKind::Cpu => state.cpu_queue.push_back(task),
                TaskKind::Io => state.io_queue.push_back(task),
            }
        },
        SchedulerEvent::WorkerFinished { worker_id, task } => {
            state.free_workers.push(worker_id);
            state.running_tasks = state.running_tasks - 1;
            if task.kind == TaskKind::Cpu {
                state.cpu_in_use = state.cpu_in_use - CPU_TASK_COST;
            }
        },
        SchedulerEvent::ProducerDone => {
            state.producer_done = true;
        },
    }
}

} // verus!
