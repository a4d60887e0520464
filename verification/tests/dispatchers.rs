use std::collections::VecDeque;
use task_dispatch::task::{make_task, summarize_results, Completion, Kind, MonitorTotals, Next, Task};
use task_dispatch::fifo;
use task_dispatch::fixed_scheduler::{
    can_start, choose_dispatch, make_exact_mix, validate_config, ConfigError, Limits, Pick, Scheduler, SimpleRng,
    State,
};
use task_dispatch::ratio_modes;
use task_dispatch::pressure;
use task_dispatch::strict_ratio::{self, batch_cost, DispatchMode};
use task_dispatch::cpu_first;
use task_dispatch::target_pattern;
use task_dispatch::target_pattern::{choose_target, Target};
use task_dispatch::strict_ratio::PoolState as StrictPool;
use task_dispatch::signal::SchedulerSignal;

fn io(id: u64) -> Task {
    make_task(id, Kind::Io, 10, 35, 200, id)
}

fn cpu(id: u64) -> Task {
    make_task(id, Kind::Cpu, 10, 35, 200, id)
}

#[test]
fn make_task_takes_cost_of_its_kind() {
    let t = make_task(7, Kind::Cpu, 10, 35, 200, 5);
    assert_eq!(t, Task { id: 7, kind: Kind::Cpu, cpu_cost: 35, duration_ms: 200, arrival_ns: 5 });
    assert_eq!(make_task(8, Kind::Io, 10, 35, 200, 6).cpu_cost, 10);
}

#[test]
fn summary_of_three_completions() {
    let comps = vec![
        Completion { id: 4, kind: Kind::Io, arrival_ns: 0, start_ns: 10_400_000, end_ns: 210_900_000 },
        Completion { id: 2, kind: Kind::Cpu, arrival_ns: 5_000_000, start_ns: 55_000_001, end_ns: 255_700_000 },
        Completion { id: 9, kind: Kind::Io, arrival_ns: 20_600_000, start_ns: 70_500_000, end_ns: 240_000_000 },
    ];
    let s = summarize_results(&comps);
    assert_eq!(s.count, 3);
    // each span rounded down to whole milliseconds
    assert_eq!(s.wait_sum, 10 + 50 + 49);
    assert_eq!(s.turnaround_sum, 210 + 250 + 219);
    assert_eq!(s.max_wait, 50);
    // the first completion reaching the largest wait keeps it
    assert_eq!(s.max_wait_id, 2);
    assert_eq!((s.io_done, s.cpu_done), (2, 1));
    assert_eq!((s.io_wait_sum, s.cpu_wait_sum), (59, 50));
    assert_eq!(s.makespan_end, 255);
    assert_eq!((s.first_id, s.last_id), (2, 9));
}

#[test]
fn summary_rounds_spans_not_instants() {
    // arrival at 0.9 ms, start at 2.1 ms: the wait is 1.2 ms, so 1 ms
    let comps = vec![Completion { id: 1, kind: Kind::Cpu, arrival_ns: 900_000, start_ns: 2_100_000, end_ns: 3_000_000 }];
    let s = summarize_results(&comps);
    assert_eq!((s.wait_sum, s.turnaround_sum, s.makespan_end), (1, 2, 3));
}

#[test]
fn summary_of_no_completions() {
    let s = summarize_results(&vec![]);
    assert_eq!(s.count, 0);
    assert_eq!(s.first_id, u64::MAX);
    assert_eq!(s.last_id, 0);
    assert_eq!(s.makespan_end, 0);
}

#[test]
fn summary_wait_never_negative() {
    let comps = vec![Completion { id: 1, kind: Kind::Io, arrival_ns: 30, start_ns: 20, end_ns: 10 }];
    let s = summarize_results(&comps);
    assert_eq!((s.wait_sum, s.turnaround_sum), (0, 0));
}

#[test]
fn monitor_totals_track_sums_and_peaks() {
    let mut m = MonitorTotals::new();
    m.record(35, 3);
    m.record(100, 5);
    m.record(70, 4);
    assert_eq!((m.cpu_sum, m.workers_sum, m.samples), (205, 12, 3));
    assert_eq!((m.peak_cpu, m.peak_workers), (100, 5));
}

#[test]
fn fifo_queue_keeps_order_and_counts() {
    let mut q = fifo::ManagerQueue::new();
    q.push(cpu(0));
    q.push(io(1));
    q.push(io(2));
    assert_eq!(q.lens_by_kind(), (2, 1));
    assert_eq!(q.pop_head_or_done(), Next::Ready(cpu(0)));
    assert_eq!(q.lens_by_kind(), (2, 0));
    assert_eq!(q.pop_head_or_done(), Next::Ready(io(1)));
    assert_eq!(q.pop_head_or_done(), Next::Ready(io(2)));
    assert_eq!(q.pop_head_or_done(), Next::Wait);
    q.close();
    assert_eq!(q.pop_head_or_done(), Next::Done);
}

#[test]
fn fifo_pool_books_within_cap_and_release_undoes() {
    let mut p = fifo::PoolState::new(100, 2);
    assert!(p.book_for(35));
    assert!(p.book_for(35));
    assert_eq!(p.snapshot(), (70, 2));
    // no free worker
    assert!(!p.book_for(10));
    p.release(35);
    assert_eq!(p.snapshot(), (35, 1));
    // over the cap
    let mut q = fifo::PoolState::new(100, 8);
    assert!(q.book_for(70));
    assert!(!q.book_for(35));
    assert_eq!(q.snapshot(), (70, 1));
    q.release(70);
    assert_eq!(q, fifo::PoolState::new(100, 8));
    q.release(5);
    assert_eq!(q.snapshot(), (0, 0));
}

#[test]
fn fifo_manager_blocks_on_head_without_skipping() {
    let mut q = fifo::ManagerQueue::new();
    let mut p = fifo::PoolState::new(100, 8);
    let mut held = None;
    q.push(cpu(0));
    q.push(cpu(1));
    q.push(cpu(2));
    q.push(io(3));
    assert_eq!(fifo::run_manager(&mut q, &mut p, &mut held), fifo::ManagerAction::Send(cpu(0)));
    assert_eq!(fifo::run_manager(&mut q, &mut p, &mut held), fifo::ManagerAction::Send(cpu(1)));
    // the third CPU task does not fit; the IO task behind it must wait too
    assert_eq!(fifo::run_manager(&mut q, &mut p, &mut held), fifo::ManagerAction::Wait);
    assert_eq!(held, Some(cpu(2)));
    assert_eq!(fifo::run_manager(&mut q, &mut p, &mut held), fifo::ManagerAction::Wait);
    p.release(35);
    assert_eq!(fifo::run_manager(&mut q, &mut p, &mut held), fifo::ManagerAction::Send(cpu(2)));
    assert_eq!(fifo::run_manager(&mut q, &mut p, &mut held), fifo::ManagerAction::Send(io(3)));
    assert_eq!(fifo::run_manager(&mut q, &mut p, &mut held), fifo::ManagerAction::Wait);
    q.close();
    assert_eq!(fifo::run_manager(&mut q, &mut p, &mut held), fifo::ManagerAction::Stop);
}

fn state(io: Vec<Task>, cpu: Vec<Task>, used: u32, busy: usize, cpu_running: usize) -> State {
    State {
        io: VecDeque::from(io),
        cpu: VecDeque::from(cpu),
        generator_closed: false,
        cpu_budget_used: used,
        busy_workers: busy,
        cpu_running,
    }
}

#[test]
fn fixed_policy_choices() {
    let cfg = Limits { num_workers: 8, cpu_cap_pct: 100 };
    // nothing queued
    assert_eq!(choose_dispatch(&state(vec![], vec![], 0, 0, 0), &cfg), None);
    // no CPU anywhere: stream IO
    assert_eq!(choose_dispatch(&state(vec![io(0)], vec![], 0, 0, 0), &cfg), Some(Pick::Io));
    // no IO queued: CPU up to the cap
    assert_eq!(choose_dispatch(&state(vec![], vec![cpu(0)], 70, 2, 2), &cfg), None);
    assert_eq!(choose_dispatch(&state(vec![], vec![cpu(0)], 35, 1, 1), &cfg), Some(Pick::Cpu));
    // drain-IO mode (IO >= 6 x CPU): one CPU running is the target
    let io6: Vec<Task> = (0..6).map(io).collect();
    assert_eq!(choose_dispatch(&state(io6.clone(), vec![cpu(9)], 0, 0, 0), &cfg), Some(Pick::Cpu));
    // running work counts too: 6 IO : (1 queued + 1 running) CPU is crunch mode
    assert_eq!(choose_dispatch(&state(io6.clone(), vec![cpu(9)], 35, 1, 1), &cfg), Some(Pick::Cpu));
    let io12: Vec<Task> = (0..12).map(io).collect();
    assert_eq!(choose_dispatch(&state(io12, vec![cpu(9)], 35, 1, 1), &cfg), Some(Pick::Io));
    // crunch mode: two CPU running is the target
    assert_eq!(choose_dispatch(&state(vec![io(0)], vec![cpu(9)], 35, 1, 1), &cfg), Some(Pick::Cpu));
    // below target but CPU does not fit: IO instead
    assert_eq!(choose_dispatch(&state(vec![io(0)], vec![cpu(9)], 70, 2, 1), &cfg), Some(Pick::Io));
    // at target, IO does not fit: wait
    assert_eq!(choose_dispatch(&state(vec![io(0)], vec![cpu(9)], 95, 3, 2), &cfg), None);
    // no free worker
    assert_eq!(choose_dispatch(&state(vec![io(0)], vec![], 0, 8, 0), &cfg), None);
}

#[test]
fn can_start_checks_worker_and_cap() {
    let cfg = Limits { num_workers: 2, cpu_cap_pct: 100 };
    assert!(can_start(&state(vec![], vec![], 65, 1, 0), &cpu(0), &cfg));
    assert!(!can_start(&state(vec![], vec![], 66, 1, 0), &cpu(0), &cfg));
    assert!(!can_start(&state(vec![], vec![], 0, 2, 0), &io(0), &cfg));
}

#[test]
fn scheduler_dispatches_books_and_finishes() {
    let mut s = Scheduler::new(Limits { num_workers: 8, cpu_cap_pct: 100 });
    assert_eq!(s.dispatch_or_done(), Next::Wait);
    s.push(io(0));
    s.push(cpu(1));
    assert_eq!(s.queue_len(), 2);
    assert_eq!(s.dispatch_or_done(), Next::Ready(cpu(1)));
    let snap = s.snapshot();
    assert_eq!((snap.cpu_budget_used, snap.busy_workers, snap.cpu_running), (35, 1, 1));
    assert_eq!(s.dispatch_or_done(), Next::Ready(io(0)));
    s.close_generator();
    assert_eq!(s.dispatch_or_done(), Next::Done);
    s.release(&cpu(1));
    s.release(&io(0));
    let snap = s.snapshot();
    assert_eq!((snap.cpu_budget_used, snap.busy_workers, snap.cpu_running), (0, 0, 0));
}

#[test]
fn splitmix_known_values() {
    let mut r = SimpleRng::new(0);
    assert_eq!(r.next_u64(), 0xE220_A839_7B1D_CDAF);
    let mut r = SimpleRng::new(42);
    assert_eq!(r.next_u64(), 13679457532755275413);
    assert_eq!(r.next_u64(), 2949826092126892291);
    let mut r = SimpleRng::new(42);
    assert_eq!(r.gen_index(1), 0);
    assert_eq!(r.state, 42);
    assert_eq!(r.gen_index(10), (13679457532755275413u64 % 10) as usize);
}

#[test]
fn exact_mix_is_a_shuffled_exact_count() {
    let mut r = SimpleRng::new(42);
    let kinds = make_exact_mix(10, 7, &mut r);
    let text: String = kinds.iter().map(|k| if *k == Kind::Io { 'I' } else { 'C' }).collect();
    assert_eq!(text, "ICICIICIII");
    assert_eq!(r.state, 10372713005361028327);
    let mut r = SimpleRng::new(1);
    let kinds = make_exact_mix(1000, 700, &mut r);
    assert_eq!(kinds.len(), 1000);
    assert_eq!(kinds.iter().filter(|k| **k == Kind::Io).count(), 700);
    // more IO asked than tasks: all IO
    let mut r = SimpleRng::new(3);
    let kinds = make_exact_mix(4, 9, &mut r);
    assert!(kinds.iter().all(|k| *k == Kind::Io));
    assert_eq!(make_exact_mix(0, 0, &mut r).len(), 0);
}

#[test]
fn config_validation_errors_in_order() {
    assert_eq!(validate_config(1000, true, 8, 100, 10, 35), Ok(()));
    assert_eq!(validate_config(0, false, 0, 0, 200, 200), Err(ConfigError::NoTasks));
    assert_eq!(validate_config(1, false, 0, 0, 200, 200), Err(ConfigError::IoFractionOutOfRange));
    assert_eq!(validate_config(1, true, 0, 0, 200, 200), Err(ConfigError::NoWorkers));
    assert_eq!(validate_config(1, true, 1, 0, 200, 200), Err(ConfigError::NoCpuCap));
    assert_eq!(validate_config(1, true, 1, 100, 200, 200), Err(ConfigError::IoTaskOverCap));
    assert_eq!(validate_config(1, true, 1, 100, 100, 101), Err(ConfigError::CpuTaskOverCap));
}

#[test]
fn ratio_rule_decisions() {
    let mut q = ratio_modes::ManagerQueues::new();
    assert_eq!(ratio_modes::decide(&q.inner, 0), ratio_modes::Pick::Wait);
    for i in 0..6 {
        q.push(io(i));
    }
    assert_eq!(ratio_modes::decide(&q.inner, 0), ratio_modes::Pick::Io);
    q.push(cpu(10));
    // 6 IO : 1 CPU is drain-IO mode with one CPU target
    assert_eq!(ratio_modes::decide(&q.inner, 0), ratio_modes::Pick::Cpu);
    assert_eq!(ratio_modes::decide(&q.inner, 1), ratio_modes::Pick::Io);
    q.push(cpu(11));
    // 6 : 2 is crunch mode: up to two CPU running
    assert_eq!(ratio_modes::decide(&q.inner, 1), ratio_modes::Pick::Cpu);
    assert_eq!(ratio_modes::decide(&q.inner, 2), ratio_modes::Pick::Io);
    assert_eq!(q.lengths(), (6, 2));
    assert_eq!(q.total_len(), 8);
}

#[test]
fn ratio_rule_waits_for_cpu_when_only_cpu_left() {
    let mut q = ratio_modes::ManagerQueues::new();
    q.push(cpu(0));
    assert_eq!(q.pick_next_or_done(2), Next::Wait);
    q.close();
    assert_eq!(q.pick_next_or_done(2), Next::Wait);
    assert_eq!(q.pick_next_or_done(0), Next::Ready(cpu(0)));
    assert_eq!(q.pick_next_or_done(0), Next::Done);
}

#[test]
fn ratio_manager_holds_until_booked() {
    let mut q = ratio_modes::ManagerQueues::new();
    let mut p = ratio_modes::PoolState::new(100, 8);
    let mut held = None;
    q.push(cpu(0));
    q.push(cpu(1));
    q.push(cpu(2));
    assert_eq!(ratio_modes::run_manager(&mut q, &mut p, &mut held), fifo::ManagerAction::Send(cpu(0)));
    assert_eq!(p.cpu_running(), 1);
    assert_eq!(ratio_modes::run_manager(&mut q, &mut p, &mut held), fifo::ManagerAction::Send(cpu(1)));
    assert_eq!(ratio_modes::run_manager(&mut q, &mut p, &mut held), fifo::ManagerAction::Wait);
    assert_eq!(held, None);
    p.release(&cpu(0));
    assert_eq!(p.snapshot(), (35, 1));
    assert_eq!(ratio_modes::run_manager(&mut q, &mut p, &mut held), fifo::ManagerAction::Send(cpu(2)));
    q.close();
    assert_eq!(ratio_modes::run_manager(&mut q, &mut p, &mut held), fifo::ManagerAction::Stop);
}

#[test]
fn pressure_queue_pops_what_fits() {
    let mut q = pressure::ManagerQueue::new();
    q.push(io(0));
    q.push(cpu(1));
    assert_eq!(q.len(), 2);
    assert_eq!(q.pop_best_that_fits(100, false, true), None);
    // only IO fits
    assert_eq!(q.pop_best_that_fits(20, true, true), Some(io(0)));
    assert_eq!(q.pop_best_that_fits(20, true, true), None);
    q.push(io(2));
    // both fit: pressure decides
    assert_eq!(q.pop_best_that_fits(50, true, false), Some(io(2)));
    q.push(io(3));
    assert_eq!(q.pop_best_that_fits(50, true, true), Some(cpu(1)));
    assert!(!q.is_closed_and_empty());
    assert_eq!(q.pop_best_that_fits(50, true, true), Some(io(3)));
    q.close();
    assert!(q.is_closed_and_empty());
}

#[test]
fn pressure_pool_reports_room() {
    let mut p = pressure::PoolState::new(100, 2);
    assert_eq!(p.available(), (100, true));
    p.book_for(35);
    p.book_for(35);
    assert_eq!(p.available(), (30, false));
    p.release(35);
    assert_eq!(p.snapshot(), (35, 1));
}

#[test]
fn signal_versions() {
    let mut s = SchedulerSignal::new();
    let seen = s.version();
    assert_eq!(s.wait_for_change(seen), None);
    s.notify_change();
    assert_eq!(s.wait_for_change(seen), Some(1));
    assert_eq!(s.wait_for_change(1), None);
}

#[test]
fn dispatch_mode_sizes() {
    let m = DispatchMode { name: "3 IO + 2 CPU", io: 3, cpu: 2 };
    assert_eq!(m.total(), 5);
    assert_eq!(m.cost(10, 35), 100);
    let m = DispatchMode { name: "6 IO + 1 CPU", io: 6, cpu: 1 };
    assert_eq!(m.cost(10, 35), 95);
    assert_eq!(batch_cost(&vec![io(0), cpu(1), io(2)]), 55);
    assert_eq!(batch_cost(&vec![]), 0);
}

fn strict_queue(n_io: u64, n_cpu: u64) -> pressure::ManagerQueue {
    let mut q = pressure::ManagerQueue::new();
    for i in 0..n_io {
        q.push(io(i));
    }
    for i in 0..n_cpu {
        q.push(cpu(100 + i));
    }
    q
}

#[test]
fn strict_batches_by_backlog_shape() {
    // no CPU queued: 8 IO
    let mut q = strict_queue(9, 0);
    let b = q.pop_strict_ratio_batch_if_ready(100, 8, 10, 35).unwrap();
    assert_eq!(b, (0..8).map(io).collect::<Vec<_>>());
    // 12 IO : 2 CPU: 6 + 1
    let mut q = strict_queue(12, 2);
    let b = q.pop_strict_ratio_batch_if_ready(100, 8, 10, 35).unwrap();
    let mut want: Vec<Task> = (0..6).map(io).collect();
    want.push(cpu(100));
    assert_eq!(b, want);
    // 5 IO : 2 CPU: 3 + 2
    let mut q = strict_queue(5, 2);
    let b = q.pop_strict_ratio_batch_if_ready(100, 8, 10, 35).unwrap();
    assert_eq!(b, vec![io(0), io(1), io(2), cpu(100), cpu(101)]);
    assert_eq!(q.len(), 2);
}

#[test]
fn strict_waits_instead_of_partial_fill_while_open() {
    let mut q = strict_queue(5, 2);
    // the 3 + 2 mode needs 100% CPU; only 65 free: wait, even though IO would fit
    assert_eq!(q.pop_strict_ratio_batch_if_ready(65, 8, 10, 35), None);
    assert_eq!(q.len(), 7);
    assert_eq!(q.pop_strict_ratio_batch_if_ready(100, 0, 10, 35), None);
}

#[test]
fn strict_final_drain() {
    let mut q = strict_queue(5, 1);
    q.close();
    // required 3 + 2 cannot form; CPU first, one at a time
    assert_eq!(q.pop_strict_ratio_batch_if_ready(30, 8, 10, 35), None);
    assert_eq!(q.pop_strict_ratio_batch_if_ready(40, 8, 10, 35), Some(vec![cpu(100)]));
    // 5 IO left: 8 IO mode not ready; drain as many IO as fit: 30 / 10 = 3
    assert_eq!(q.pop_strict_ratio_batch_if_ready(30, 8, 10, 35), Some(vec![io(0), io(1), io(2)]));
    // by workers
    assert_eq!(q.pop_strict_ratio_batch_if_ready(100, 1, 10, 35), Some(vec![io(3)]));
    assert_eq!(q.pop_strict_ratio_batch_if_ready(5, 8, 10, 35), None);
    assert_eq!(q.pop_strict_ratio_batch_if_ready(10, 8, 10, 35), Some(vec![io(4)]));
    assert!(q.is_closed_and_empty());
}

#[test]
fn strict_pool_books_batches() {
    let mut p = StrictPool::new(100, 8);
    assert_eq!(p.available(), (100, 8));
    p.book_batch(100, 5);
    assert_eq!(p.available(), (0, 3));
    p.release(35);
    assert_eq!(p.snapshot(), (65, 4));
}

#[test]
fn cpu_first_round_prefers_cpu_then_fills_io() {
    let mut q = cpu_first::TwoQueues::new();
    let mut p = cpu_first::PoolState::new(100, 8);
    q.push(io(0));
    q.push(io(1));
    q.push(cpu(2));
    q.push(cpu(3));
    q.push(cpu(4));
    assert_eq!(q.peek_heads(), (Some(10), Some(35)));
    match cpu_first::run_manager(&mut q, &mut p) {
        cpu_first::Round::Send(v) => assert_eq!(v, vec![cpu(2), io(0)]),
        _ => panic!("expected a dispatch"),
    }
    match cpu_first::run_manager(&mut q, &mut p) {
        cpu_first::Round::Send(v) => assert_eq!(v, vec![cpu(3), io(1)]),
        _ => panic!("expected a dispatch"),
    }
    // 90% used: the next CPU task does not fit and no IO waits
    assert!(matches!(cpu_first::run_manager(&mut q, &mut p), cpu_first::Round::Wait));
    assert_eq!(p.snapshot(), (90, 4));
    p.release(35);
    match cpu_first::run_manager(&mut q, &mut p) {
        cpu_first::Round::Send(v) => assert_eq!(v, vec![cpu(4)]),
        _ => panic!("expected a dispatch"),
    }
    q.close();
    assert!(q.both_empty() && q.is_closed());
    assert!(matches!(cpu_first::run_manager(&mut q, &mut p), cpu_first::Round::Stop));
}

#[test]
fn target_choice_and_refusal() {
    assert_eq!(choose_target(10, 0), Target { io: 8, cpu: 0 });
    assert_eq!(choose_target(12, 2), Target { io: 6, cpu: 1 });
    assert_eq!(choose_target(11, 2), Target { io: 3, cpu: 2 });
    let mut p = target_pattern::PoolState::new(100, 8);
    assert!(p.try_book_against_target(Kind::Io, 10, 3));
    assert!(p.try_book_against_target(Kind::Io, 10, 3));
    assert!(p.try_book_against_target(Kind::Io, 10, 3));
    // at target for IO: refused although it fits
    assert!(!p.try_book_against_target(Kind::Io, 10, 3));
    assert!(p.try_book_against_target(Kind::Cpu, 35, 2));
    assert!(p.try_book_against_target(Kind::Cpu, 35, 2));
    assert_eq!(p.snapshot(), (100, 5));
    assert_eq!(p.inner.busy_workers(), 5);
    p.release(Kind::Cpu, 35);
    assert_eq!(p.snapshot(), (65, 4));
    assert_eq!(p.inner.cpu_running, 1);
}

#[test]
fn target_manager_round() {
    let mut q = cpu_first::TwoQueues::new();
    let mut p = target_pattern::PoolState::new(100, 8);
    for i in 0..3 {
        q.push(io(i));
    }
    q.push(cpu(10));
    q.push(cpu(11));
    match target_pattern::run_manager(&mut q, &mut p) {
        cpu_first::Round::Send(v) => assert_eq!(v, vec![cpu(10), io(0)]),
        _ => panic!("expected a dispatch"),
    }
    assert_eq!(q.lens(), (2, 1));
}

#[test]
fn pressure_manager_books_before_sending() {
    let mut q = pressure::ManagerQueue::new();
    let mut p = pressure::PoolState::new(40, 2);
    q.push(cpu(1));
    q.push(io(2));
    // both heads fit: the pressure comparison picks CPU, booked at once
    assert_eq!(pressure::run_manager(&mut q, &mut p, true), fifo::ManagerAction::Send(cpu(1)));
    assert_eq!(p.snapshot(), (35, 1));
    // only 5 left: the IO head (10) does not fit
    assert_eq!(pressure::run_manager(&mut q, &mut p, true), fifo::ManagerAction::Wait);
    assert_eq!(p.snapshot(), (35, 1));
    p.release(35);
    assert_eq!(pressure::run_manager(&mut q, &mut p, true), fifo::ManagerAction::Send(io(2)));
    assert_eq!(p.snapshot(), (10, 1));
    assert_eq!(pressure::run_manager(&mut q, &mut p, true), fifo::ManagerAction::Wait);
    q.close();
    assert_eq!(pressure::run_manager(&mut q, &mut p, true), fifo::ManagerAction::Stop);
}

#[test]
fn strict_manager_books_whole_batch() {
    let mut q = strict_queue(7, 1);
    let mut p = StrictPool::new(100, 8);
    match strict_ratio::run_manager(&mut q, &mut p, 10, 35) {
        cpu_first::Round::Send(batch) => {
            let ids: Vec<u64> = batch.iter().map(|t| t.id).collect();
            assert_eq!(ids, vec![0, 1, 2, 3, 4, 5, 100]);
        }
        _ => panic!("expected a 6 IO + 1 CPU batch"),
    }
    assert_eq!(p.snapshot(), (95, 7));
    // one IO task left, open lanes: the strict policy waits
    assert!(matches!(strict_ratio::run_manager(&mut q, &mut p, 10, 35), cpu_first::Round::Wait));
    assert_eq!(p.snapshot(), (95, 7));
    q.close();
    // final drain: 5 of CPU room fits no IO task (10)
    assert!(matches!(strict_ratio::run_manager(&mut q, &mut p, 10, 35), cpu_first::Round::Wait));
    p.release(35);
    match strict_ratio::run_manager(&mut q, &mut p, 10, 35) {
        cpu_first::Round::Send(batch) => assert_eq!(batch, vec![io(6)]),
        _ => panic!("expected the last IO task"),
    }
    assert!(matches!(strict_ratio::run_manager(&mut q, &mut p, 10, 35), cpu_first::Round::Stop));
}

#[test]
fn lane_changes_bump_the_signal() {
    let mut sig = SchedulerSignal::new();
    let mut q = pressure::ManagerQueue::new();
    q.push_and_notify(io(1), &mut sig);
    q.push_and_notify(cpu(2), &mut sig);
    assert_eq!(sig.version(), 2);
    assert_eq!((q.io.len(), q.cpu.len()), (1, 1));
    q.close_and_notify(&mut sig);
    assert!(q.closed);
    assert_eq!(sig.version(), 3);
    let mut p = pressure::PoolState::new(100, 2);
    p.book_for(35);
    p.release_and_notify(35, &mut sig);
    assert_eq!((p.snapshot(), sig.version()), ((0, 0), 4));
    let mut sp = StrictPool::new(100, 2);
    sp.book_batch(10, 1);
    sp.release_and_notify(10, &mut sig);
    assert_eq!((sp.snapshot(), sig.version()), ((0, 0), 5));
}

#[test]
fn strict_manager_takes_uneven_costs_that_fit() {
    // the CPU task costs 50, not the configured 35, but the batch still fits
    let mut q = strict_queue(6, 0);
    q.push(make_task(200, Kind::Cpu, 10, 50, 200, 0));
    let mut p = StrictPool::new(120, 8);
    match strict_ratio::run_manager(&mut q, &mut p, 10, 35) {
        cpu_first::Round::Send(batch) => assert_eq!(batch.len(), 7),
        _ => panic!("expected a 6 IO + 1 CPU batch"),
    }
    // the pool books what the batch really costs
    assert_eq!(p.snapshot(), (110, 7));
}

#[test]
fn same_seed_same_mixed_series() {
    let mut a = SimpleRng::new(42);
    let mut b = SimpleRng::new(42);
    for i in 0..10usize {
        if i % 3 == 0 {
            assert_eq!(a.next_u64(), b.next_u64());
        } else {
            assert_eq!(a.gen_index(i), b.gen_index(i));
        }
    }
    assert_eq!(a, b);
    // gen_index with a bound of at most 1 does not advance the state
    let before = a.state;
    assert_eq!(a.gen_index(1), 0);
    assert_eq!(a.state, before);
}
