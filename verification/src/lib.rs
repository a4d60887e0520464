//! Verified scheduling and coordination logic for a family of task-dispatch
//! simulations: dispatch policies over IO/CPU task queues, resource pools
//! with a CPU cap, run statistics, and small turn-taking protocols.
#![allow(unused_imports)]

pub mod task;
pub mod fifo;
pub mod fixed_scheduler;
pub mod signal;
pub mod pressure;
pub mod strict_ratio;
pub mod ratio_modes;
pub mod cpu_first;
pub mod target_pattern;
pub mod event_scheduler;
pub mod metrics;
pub mod budget_gate;
pub mod seeded;
pub mod gated;
pub mod ordering;
pub mod resource_pool;
pub mod word_filter;
pub mod round_robin;
pub mod pipeline;
pub mod config_text;
