# task_dispatch

Scheduling and coordination logic for a family of task-dispatch simulations,
written in Verus and proved against its contracts.

- `src/` is the verified library: task queues and dispatch policies (FIFO,
  ratio-based, pressure-based, strict-ratio batches, CPU-first, target
  pattern, a fixed scheduler and an event-driven one), CPU-capped resource
  pools, run statistics and metric folds, configuration-text parsing, the
  turn-taking protocols of the classic thread puzzles, and a few small
  helpers (word filter, pipeline stages, round-robin assignment).
- `tests/` runs the library on concrete values.
- `app/` is the runnable side: threads, channels, condition variables,
  timing, file and console I/O, floating-point draws, rayon and the AVX
  experiments. Its `main` runs the demonstration named by its first argument;
  without one it lists them.
