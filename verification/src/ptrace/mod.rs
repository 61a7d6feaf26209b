//! Tracing: how one process watches and steers another.
pub mod control;
pub mod memory;
pub mod outcome;
pub mod regs;
pub mod relation;
pub mod report;
pub mod state;
pub mod stop;
pub mod stop_outcome;
pub mod syscall_info;
pub mod types;
