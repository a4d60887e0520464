//! Static round-robin assignment of a task stream to a fixed set of workers,
//! each with its own channel.
use vstd::prelude::*;
use std::time::Duration;

verus! {

#[derive(Debug, Clone, Copy, PartialEq, Eq, Structural)]
pub enum TaskKind {
    Cpu,
    Io,
}

#[derive(Debug)]
pub struct Task {
    pub id: usize,
    pub kind: TaskKind,
    pub duration: Duration,
}

/// Task `i` of the stream: CPU for even ids, IO for odd ones.
pub fn make_task(i: usize, duration: Duration) -> (t: Task)
    ensures
        t.id == i,
        t.kind == (if i % 2 == 0 { TaskKind::Cpu } else { TaskKind::Io }),
        t.duration == duration,
{
    Task { id: i, kind: if i % 2 == 0 { TaskKind::Cpu } else { TaskKind::Io }, duration }
}

/// The worker that receives task `i`: the tasks go round the workers in turn.
pub fn worker_for(i: usize, num_workers: usize) -> (w: usize)
    requires
        num_workers > 0,
    ensures
        w == i % num_workers,
        w < num_workers,
{
    i % num_workers
}

/// Consecutive tasks go to consecutive workers, wrapping around, so every
/// window of `num_workers` consecutive tasks reaches every worker once.
pub proof fn lemma_round_robin_cycles(i: nat, num_workers: nat)
    requires
        num_workers > 0,
    ensures
        (i + 1) % num_workers == if i % num_workers + 1 == num_workers { 0 } else { i % num_workers + 1 },
        (i + num_workers) % num_workers == i % num_workers,
{
    let n = num_workers as int;
    let q = (i as int) / n;
    let r = (i as int) % n;
    vstd::arithmetic::div_mod::lemma_fundamental_div_mod(i as int, n);
    vstd::arithmetic::div_mod::lemma_mod_bound(i as int, n);
    assert(i + n == (q + 1) * n + r) by (nonlinear_arith)
        requires i == n * q + r;
    vstd::arithmetic::div_mod::lemma_fundamental_div_mod_converse(i + n, n, q + 1, r);
    if r + 1 < n {
        assert(i + 1 == q * n + (r + 1)) by (nonlinear_arith)
            requires i == n * q + r;
        vstd::arithmetic::div_mod::lemma_fundamental_div_mod_converse(i as int + 1, n, q, r + 1);
    } else {
        assert(i + 1 == (q + 1) * n + 0) by (nonlinear_arith)
            requires i == n * q + r, r + 1 == n;
        vstd::arithmetic::div_mod::lemma_fundamental_div_mod_converse(i as int + 1, n, q + 1, 0);
    }
}

} // verus!
