//! Building blocks of the kernel.
pub mod spinlock;
