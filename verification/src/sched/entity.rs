//! What the scheduler keeps of a task.
use crate::sched::load_weight::LoadWeight;
use crate::sched::policy::{OnRq, SchedPolicy};
use crate::smp::cpu::{CpuMask, ProcessorId, MAX_CPU_NUM};
use vstd::prelude::*;

verus! {

/// What a task is doing.
#[derive(Debug, Clone, Copy, PartialEq, Eq, Structural)]
pub enum ProcessState {
    /// Runs, or could run.
    Runnable,
    /// Sleeps; a signal wakes it if the field is set.
    Blocked(bool),
    /// Is stopped.
    Stopped,
    /// Has exited with a code.
    Exited(usize),
}

impl ProcessState {
    pub open spec fn spec_is_stopped(self) -> bool {
        self == ProcessState::Stopped
    }

    #[verifier::when_used_as_spec(spec_is_stopped)]
    pub fn is_stopped(self) -> (b: bool)
        ensures
            b == self.is_stopped(),
    {
        match self {
            ProcessState::Stopped => true,
            _ => false,
        }
    }

    pub open spec fn spec_is_exited(self) -> bool {
        self is Exited
    }

    #[verifier::when_used_as_spec(spec_is_exited)]
    pub fn is_exited(self) -> (b: bool)
        ensures
            b == self.is_exited(),
    {
        match self {
            ProcessState::Exited(_) => true,
            _ => false,
        }
    }

    pub open spec fn spec_is_blocked_interruptable(self) -> bool {
        self == ProcessState::Blocked(true)
    }

    /// Sleeps in a way that a signal ends.
    #[verifier::when_used_as_spec(spec_is_blocked_interruptable)]
    pub fn is_blocked_interruptable(self) -> (b: bool)
        ensures
            b == self.is_blocked_interruptable(),
    {
        match self {
            ProcessState::Blocked(interruptable) => interruptable,
            _ => false,
        }
    }
}

/// How long something waited in a run queue.
#[derive(Debug, Clone, Copy, PartialEq, Eq, Structural)]
pub struct SchedInfo {
    /// When the current wait began, or 0 for no wait.
    pub last_queued: u64,
    /// The time spent waiting so far.
    pub run_delay: u64,
}

/// What the fair class keeps of a group on a processor, by its place.
#[derive(Debug, Clone, Copy, PartialEq, Eq, Structural)]
pub struct GroupEntity {
    pub group: usize,
    pub cpu: ProcessorId,
}

/// What the fair class keeps of a task, or of a group of tasks on a processor.
#[derive(Debug, Clone, Copy, PartialEq, Eq, Structural)]
pub struct FairSchedEntity {
    pub load: LoadWeight,
    /// The average utilisation.
    pub util_avg: usize,
    /// When the averages were brought up to date.
    pub last_update_time: u64,
    /// The processor whose fair run queue the task belongs to.
    pub cfs_rq: ProcessorId,
    /// The group whose fair run queue that is, or none for the queue of the processor
    /// itself.
    pub cfs_group: Option<usize>,
    /// The group that the task counts for.
    pub parent: Option<GroupEntity>,
}

impl FairSchedEntity {
    /// How many levels there can be above.
    pub open spec fn level(self) -> nat {
        match self.parent {
            Some(p) => p.group as nat + 1,
            None => 0,
        }
    }

    /// Whether the queue and the group are there, if there are `n` groups.
    pub open spec fn fits(self, n: nat) -> bool {
        &&& self.cfs_rq.id < MAX_CPU_NUM
        &&& self.cfs_group is Some ==> self.cfs_group->Some_0 < n
        &&& self.parent is Some ==> self.parent->Some_0.group < n && self.parent->Some_0.cpu.id
            < MAX_CPU_NUM
    }
}

/// What the scheduler keeps of a task.
#[derive(Debug, Clone, Copy)]
pub struct ProcessSchedulerInfo {
    pub policy: SchedPolicy,
    pub prio: i32,
    pub static_prio: i32,
    pub normal_prio: i32,
    pub rt_priority: i32,
    /// The processor that the task belongs to.
    pub cpu: ProcessorId,
    /// The processor that the task runs on right now.
    pub on_cpu: Option<ProcessorId>,
    pub on_rq: OnRq,
    pub state: ProcessState,
    /// The task is about to sleep.
    pub mark_sleep: bool,
    /// `SIGKILL` ends the sleep of the task.
    pub wake_kill: bool,
    /// Where the task shall move to.
    pub migrate_to: Option<ProcessorId>,
    /// The processors that the task may run on.
    pub cpus_allowed: CpuMask,
    pub sched_stat: SchedInfo,
    pub sched_entity: FairSchedEntity,
}

} // verus!
