//! The scheduler.
pub mod books;
pub mod domain;
pub mod entity;
pub mod flags;
pub mod fork;
pub mod getparam;
pub mod load_weight;
pub mod loadavg;
pub mod outcome;
pub mod percpu;
pub mod policy;
pub mod prio;
pub mod queueing;
pub mod rebalance;
pub mod rq;
pub mod schedule;
pub mod scheduler;
pub mod tick;
pub mod wake;
