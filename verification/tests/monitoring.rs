use std::collections::VecDeque;
use task_dispatch::event_scheduler::{
    apply_event, dispatch_ready_tasks, pick_next_task, undo_dispatch, SchedulerEvent, SchedulerState, Task, TaskKind,
};
use task_dispatch::metrics::{build_task_plan, MetricEvent, Stats, TaskKind as MKind};
use task_dispatch::budget_gate::{self, history_stats, leave, try_enter};
use task_dispatch::gated::{self, alternating_cost, plan_task, try_reserve, worker_rng, MonitorReport, CPU_BUDGET};
use task_dispatch::config_text::{apply_config_text, IntSettings};

fn t(id: usize, kind: TaskKind, arrival_ns: u64) -> Task {
    Task { id, kind, arrival_ns }
}

#[test]
fn event_scheduler_starts_with_all_workers_free() {
    let s = SchedulerState::new(4);
    assert_eq!(s.free_workers, vec![0, 1, 2, 3]);
    assert!(s.can_run_cpu());
    assert!(!s.is_drained());
}

#[test]
fn event_scheduler_oldest_waits() {
    let mut s = SchedulerState::new(2);
    assert_eq!(s.oldest_cpu_wait(100), 0);
    apply_event(&mut s, SchedulerEvent::NewTask(t(0, TaskKind::Cpu, 40)));
    apply_event(&mut s, SchedulerEvent::NewTask(t(1, TaskKind::Io, 70)));
    assert_eq!(s.oldest_cpu_wait(100), 60);
    assert_eq!(s.oldest_io_wait(100), 30);
    assert_eq!(s.oldest_io_wait(50), 0);
}

#[test]
fn event_scheduler_prefers_older_or_reserved_cpu() {
    let mut s = SchedulerState::new(3);
    s.cpu_queue = VecDeque::from(vec![t(0, TaskKind::Cpu, 50)]);
    s.io_queue = VecDeque::from(vec![t(1, TaskKind::Io, 10)]);
    // IO is older and only 3 workers are free (not more than the reserve of 2 + 0)
    // 3 > 2, so CPU goes ahead anyway
    assert_eq!(pick_next_task(&mut s, 100), Some(t(0, TaskKind::Cpu, 50)));
    let mut s = SchedulerState::new(2);
    s.cpu_queue = VecDeque::from(vec![t(0, TaskKind::Cpu, 50)]);
    s.io_queue = VecDeque::from(vec![t(1, TaskKind::Io, 10)]);
    assert_eq!(pick_next_task(&mut s, 100), Some(t(1, TaskKind::Io, 10)));
}

#[test]
fn event_scheduler_dispatch_respects_budget() {
    let mut s = SchedulerState::new(10);
    for i in 0..3 {
        apply_event(&mut s, SchedulerEvent::NewTask(t(i, TaskKind::Cpu, 0)));
    }
    apply_event(&mut s, SchedulerEvent::NewTask(t(9, TaskKind::Io, 5)));
    let sent = dispatch_ready_tasks(&mut s, 10);
    assert_eq!(
        sent,
        vec![(9, t(0, TaskKind::Cpu, 0)), (8, t(1, TaskKind::Cpu, 0)), (7, t(9, TaskKind::Io, 5))]
    );
    assert_eq!(s.cpu_in_use, 100);
    assert_eq!(s.running_tasks, 3);
    assert_eq!(s.cpu_queue.len(), 1);
    // a finished CPU task frees room for the third
    apply_event(&mut s, SchedulerEvent::WorkerFinished { worker_id: 9, task: t(0, TaskKind::Cpu, 0) });
    let sent = dispatch_ready_tasks(&mut s, 20);
    assert_eq!(sent, vec![(9, t(2, TaskKind::Cpu, 0))]);
}

#[test]
fn event_scheduler_undo_restores_state() {
    let mut s = SchedulerState::new(2);
    apply_event(&mut s, SchedulerEvent::NewTask(t(0, TaskKind::Cpu, 0)));
    apply_event(&mut s, SchedulerEvent::NewTask(t(1, TaskKind::Io, 0)));
    let sent = dispatch_ready_tasks(&mut s, 0);
    assert_eq!(sent.len(), 2);
    for (w, task) in sent.into_iter().rev() {
        undo_dispatch(&mut s, w, task);
    }
    assert_eq!(s.free_workers, vec![0, 1]);
    assert_eq!(s.cpu_in_use, 0);
    assert_eq!(s.running_tasks, 0);
    assert_eq!(s.cpu_queue, VecDeque::from(vec![t(0, TaskKind::Cpu, 0)]));
    assert_eq!(s.io_queue, VecDeque::from(vec![t(1, TaskKind::Io, 0)]));
}

#[test]
fn event_scheduler_drains() {
    let mut s = SchedulerState::new(1);
    apply_event(&mut s, SchedulerEvent::NewTask(t(0, TaskKind::Io, 0)));
    apply_event(&mut s, SchedulerEvent::ProducerDone);
    let sent = dispatch_ready_tasks(&mut s, 0);
    assert_eq!(sent, vec![(0, t(0, TaskKind::Io, 0))]);
    assert!(!s.is_drained());
    apply_event(&mut s, SchedulerEvent::WorkerFinished { worker_id: 0, task: t(0, TaskKind::Io, 0) });
    assert!(s.is_drained());
}

#[test]
fn stats_fold_events() {
    let mut s = Stats::new();
    s.apply(MetricEvent::Enqueued { task_id: 0, kind: MKind::Cpu });
    s.apply(MetricEvent::Enqueued { task_id: 1, kind: MKind::Io });
    assert_eq!((s.queue_depth, s.max_queue_depth, s.queued_cpu, s.queued_io), (2, 2, 1, 1));
    s.apply(MetricEvent::Started { worker_id: 0, task_id: 0, kind: MKind::Cpu, arrival_ns: 0, enqueue_ns: 0, start_ns: 15 });
    s.apply(MetricEvent::Started { worker_id: 1, task_id: 1, kind: MKind::Io, arrival_ns: 40, enqueue_ns: 40, start_ns: 45 });
    assert_eq!((s.queue_depth, s.max_queue_depth, s.queued_cpu, s.queued_io), (0, 2, 0, 0));
    assert_eq!((s.sum_wait, s.max_wait, s.started_at), (20, 15, Some(0)));
    s.apply(MetricEvent::Finished { worker_id: 1, task_id: 1, kind: MKind::Io, arrival_ns: 40, start_ns: 45, finish_ns: 95 });
    s.apply(MetricEvent::Finished { worker_id: 0, task_id: 0, kind: MKind::Cpu, arrival_ns: 0, start_ns: 15, finish_ns: 195 });
    assert_eq!((s.total_finished, s.cpu_finished, s.io_finished), (2, 1, 1));
    assert_eq!(s.sum_turnaround, 55 + 195);
    assert_eq!(s.worker_totals(0), (180, 1));
    assert_eq!(s.worker_totals(1), (50, 1));
    assert_eq!(s.worker_totals(7), (0, 0));
    assert_eq!(s.makespan(), Some(195));
    assert_eq!(s.last_task_id_seen, Some(0));
}

#[test]
fn stats_queue_depth_never_negative() {
    let mut s = Stats::new();
    s.apply(MetricEvent::Started { worker_id: 0, task_id: 3, kind: MKind::Io, arrival_ns: 5, enqueue_ns: 9, start_ns: 7 });
    assert_eq!((s.queue_depth, s.queued_io, s.sum_wait), (0, 0, 0));
    assert_eq!(s.makespan(), None);
}

#[test]
fn task_plan_entries() {
    let plan = build_task_plan(24);
    assert_eq!(plan.len(), 24);
    assert_eq!(plan[0], (MKind::Cpu, 180, 0));
    assert_eq!(plan[1], (MKind::Io, 70, 40));
    assert_eq!(plan[3], (MKind::Cpu, 300, 40));
    assert_eq!(plan[5], (MKind::Io, 70, 25));
    assert_eq!(plan[8], (MKind::Io, 50, 0));
    assert_eq!(plan[10], (MKind::Io, 90, 25));
}

#[test]
fn budget_gate_admits_within_budget() {
    assert_eq!(try_enter(90, budget_gate::TaskKind::Io), Some(100));
    assert_eq!(try_enter(91, budget_gate::TaskKind::Io), None);
    assert_eq!(try_enter(50, budget_gate::TaskKind::Cpu), Some(100));
    assert_eq!(try_enter(60, budget_gate::TaskKind::Cpu), None);
    assert_eq!(leave(100, budget_gate::TaskKind::Cpu), 50);
    assert_eq!(leave(10, budget_gate::TaskKind::Io), 0);
}

#[test]
fn lcg_known_value() {
    let mut r = budget_gate::SimpleRng::new(42);
    assert_eq!(r.next_u32(), 2440530669);
    assert_eq!(r.state, 10481999410520546993);
}

#[test]
fn history_sum_and_peak() {
    assert_eq!(history_stats(&vec![(0, 10), (10, 60), (20, 35)]), (105, 60));
    assert_eq!(history_stats(&vec![]), (0, 0));
}

#[test]
fn gate_reserves_against_budget() {
    assert_eq!(try_reserve(65, 35, CPU_BUDGET), Some(100));
    assert_eq!(try_reserve(70, 35, CPU_BUDGET), None);
    assert_eq!(gated::TaskKind::Cpu.cpu_cost(), 35);
    assert_eq!(gated::TaskKind::Io.cpu_cost(), 10);
    assert_eq!((alternating_cost(0), alternating_cost(1), alternating_cost(4)), (35, 10, 35));
}

#[test]
fn monitor_report_accumulates() {
    let mut r = MonitorReport::new();
    r.record(45, 2);
    r.record(10, 1);
    assert_eq!(r, MonitorReport { sample_count: 2, cpu_sum: 55, active_sum: 3 });
}

#[test]
fn drawn_durations_stay_in_range_and_vary() {
    let mut rng = worker_rng(42, 0);
    let mut seen = Vec::new();
    for i in 0..20 {
        let task = plan_task(&mut rng, if i % 2 == 0 { 1 } else { 0 }, 1, 0, 1_000_000);
        assert!(task.duration_ms <= 1_000_000);
        assert_eq!(task.cost, if i % 2 == 0 { 10 } else { 35 });
        seen.push(task.duration_ms);
    }
    assert!(seen.iter().any(|d| *d != 0));
    assert!(seen.iter().any(|d| *d != seen[0]));
    let mut a = worker_rng(7, 1);
    let mut b = worker_rng(7, 1);
    assert_eq!(plan_task(&mut a, 1, 2, 20, 40), plan_task(&mut b, 1, 2, 20, 40));
    let mut c = worker_rng(7, 1);
    let fixed = plan_task(&mut c, 0, 1, 25, 25);
    assert_eq!(fixed.duration_ms, 25);
}

fn defaults() -> IntSettings {
    IntSettings {
        total_tasks: 1000,
        arrival_interval_ms: 1,
        num_workers: 8,
        task_duration_ms: 200,
        io_cpu_pct: 10,
        cpu_cpu_pct: 35,
        cpu_cap_pct: 100,
        monitor_interval_ms: 10,
        rng_seed: 42,
    }
}

fn chars(s: &str) -> Vec<char> {
    s.chars().collect()
}

#[test]
fn config_text_applies_settings() {
    let text = "# settings\n total_tasks = 500 \nnum_workers=+4 # four\r\nio_fraction = 0.6\ncsv_path = \"out.csv\"\nrng_seed=7\n";
    let c = apply_config_text(&chars(text), defaults());
    assert_eq!(c.ints.total_tasks, 500);
    assert_eq!(c.ints.num_workers, 4);
    assert_eq!(c.ints.rng_seed, 7);
    assert_eq!(c.ints.cpu_cap_pct, 100);
    assert_eq!(c.io_fraction_values, vec![chars("0.6")]);
    assert_eq!(c.csv_path, Some(chars("out.csv")));
}

#[test]
fn config_text_keeps_value_on_bad_input() {
    let text = "total_tasks = many\nio_cpu_pct = 4294967296\ncpu_cpu_pct = -3\nunknown = 1\nno equals sign\n\n=5\nmonitor_interval_ms = 20";
    let c = apply_config_text(&chars(text), defaults());
    assert_eq!(c.ints, IntSettings { monitor_interval_ms: 20, ..defaults() });
    assert!(c.io_fraction_values.is_empty());
    assert_eq!(c.csv_path, None);
}

#[test]
fn config_text_later_lines_win() {
    let c = apply_config_text(&chars("cpu_cap_pct = 90\ncpu_cap_pct=80\ncpu_cap_pct=x"), defaults());
    assert_eq!(c.ints.cpu_cap_pct, 80);
    let c = apply_config_text(&chars("io_cpu_pct = 4294967295"), defaults());
    assert_eq!(c.ints.io_cpu_pct, u32::MAX);
    let c = apply_config_text(&chars("\u{3000}csv_path\u{a0}= \"\"a.csv\"\"  "), defaults());
    assert_eq!(c.csv_path, Some(chars("a.csv")));
}
