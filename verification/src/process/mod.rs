//! Processes: what is kept of each task, and of all of them together.
pub mod action;
pub mod manager;
pub mod pcb;
pub mod preempt;
pub mod signal;
pub mod utils;
