//! What the kernel has to do to the world outside the tables of this crate.
use crate::process::pcb::TaskId;
use crate::process::signal::{PidType, SigInfo, Signal};
use crate::smp::cpu::ProcessorId;
use vstd::prelude::*;

verus! {

/// Why a processor is balanced.
#[derive(Debug, Clone, Copy, PartialEq, Eq, Structural)]
pub enum CpuIdleType {
    /// It runs tasks.
    NotIdle,
    /// It is idle.
    Idle,
    /// It has just become idle.
    NewlyIdle,
}

/// Something to be done.
#[derive(Debug, Clone, Copy, PartialEq, Eq, Structural)]
pub enum Action {
    /// Interrupt a processor so that it looks at its run queue.
    ReschedIpi(ProcessorId),
    /// Wake a task that is stopped.
    WakeupStop(TaskId),
    /// Wake a task that sleeps.
    Wakeup(TaskId),
    /// Make a running task enter the kernel.
    Kick(TaskId),
    /// Wake a parent that waits for its children.
    WakeWaitParent(TaskId),
    /// Wake everything that waits for the children of a task.
    WakeAllWaiters(TaskId),
    /// Wake the tracers that wait for a task to be trapped.
    WakeTrapWaiters(TaskId),
    /// Wait until a task is no longer on its way into a tracing stop.
    WaitTrappingCleared(TaskId),
    /// Send a signal.
    SendSignal { signal: Signal, info: Option<SigInfo>, to: TaskId, scope: PidType },
    /// Work out again whether a signal waits for a task.
    RecalcSigpending(TaskId),
    /// Fold the tasks of a processor into the global load.
    GlobalLoadTick { cpu: ProcessorId, nr_running: usize, nr_uninterruptible: isize },
    /// Set up the processor time statistics.
    InitKernelCpuStat,
    /// Charge a tick to the running task.
    AccountTick { task: TaskId, user_tick: bool },
    /// Balance the domains of a processor from a work queue.
    RebalanceDomains { cpu: ProcessorId, idle: CpuIdleType },
    /// A task with a restartable sequence loses the processor.
    RseqPreempt(TaskId),
    /// Count a context switch.
    AccountContextSwitch,
    /// Hand a task over to another processor once the switch away from it is done.
    MigrateAfterSwitch(ProcessorId),
    /// Switch from one task to another.
    SwitchProcess { prev: TaskId, next: TaskId },
    /// Advance the bring-up of a processor.
    CpuhpStep(ProcessorId),
    /// Tell the boot processor that this one is up.
    CompleteApThread(bool),
    /// Switch on the no-execute bit on this processor.
    InitNxe,
    /// Set up the paravirtual clock on this processor.
    InitKvmClock,
    /// Set up system calls on this processor.
    InitSyscall,
    /// Set up the clock of the scheduler on this processor.
    InitialSetupSchedLocal,
    /// Start scheduling on this processor.
    EnableSchedLocal,
    /// Enter the idle loop.
    ArchIdle,
    /// Exchange the kernel and the user base of the GS segment.
    SwapGs,
    /// Run the handler of an interrupt.
    HandleIrq(u32),
    /// Tell the interrupt controller that an interrupt is over.
    SendEoi,
    /// Run what interrupts have deferred.
    DoSoftirq,
}

} // verus!
