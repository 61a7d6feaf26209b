//! The process scheduler and the tracing of processes of the DragonOS kernel.
pub mod error;
pub mod interrupt;
pub mod libs;
pub mod mm;
pub mod process;
pub mod procfs;
pub mod ptrace;
pub mod sched;
pub mod smp;
