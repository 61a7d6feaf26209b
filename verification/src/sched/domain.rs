//! Scheduling domains: the levels on which processors are balanced.
use crate::smp::cpu::CpuMask;
use vstd::prelude::*;

verus! {

/// A group of processors within a domain.
#[derive(Debug, Clone, Copy)]
pub struct SchedGroup {
    pub cpumask: CpuMask,
}

/// A level on which processors are balanced.
#[derive(Debug, Clone, Copy)]
pub struct SchedDomain {
    /// How long to wait between two rounds, in milliseconds.
    pub balance_interval: u64,
    /// How much longer a busy processor waits.
    pub busy_factor: u32,
    /// When the last round was, in ticks.
    pub last_balance: u64,
    pub groups: Option<SchedGroup>,
    /// The place of the next higher level.
    pub parent: Option<usize>,
}

} // verus!
