//! What is kept of each task.
use crate::interrupt::trap_frame::{KernelStack, TrapFrame};
use crate::process::signal::{RawPid, SigSet, Signal};
use crate::ptrace::state::PtraceState;
use crate::sched::entity::{ProcessSchedulerInfo, ProcessState, SchedInfo};
use crate::sched::policy::OnRq;
use crate::smp::cpu::ProcessorId;
use vstd::prelude::*;

verus! {

/// The place of a task in the table of tasks. A task keeps its place as long as
/// anything refers to it, also when its process number changes.
pub type TaskId = usize;

/// The marks on a task.
#[derive(Debug, Clone, Copy, PartialEq, Eq, Structural)]
pub struct ProcessFlags {
    /// A kernel thread.
    pub kthread: bool,
    /// Should give up the processor.
    pub need_schedule: bool,
    /// Should move to another processor.
    pub need_migrate: bool,
    /// Waits for input or output.
    pub in_iowait: bool,
    /// Counts as load though it sleeps.
    pub sched_contributes_to_load: bool,
    /// Is exiting.
    pub exiting: bool,
    /// Has its restartable sequence to be looked at.
    pub need_rseq: bool,
    /// Is traced.
    pub ptraced: bool,
    /// Stops at system calls.
    pub trace_syscall: bool,
    /// Stops after each instruction.
    pub trace_singlestep: bool,
    /// Stops at system calls, which are then not made.
    pub trace_sysemu: bool,
    /// Was seized by its tracer.
    pub pt_seized: bool,
    /// Is in an event stop.
    pub ptrace_event_stop: bool,
    /// Has a tracing stop to come.
    pub pending_ptrace_stop: bool,
    /// Is on its way into a tracing stop, and its tracer waits for it.
    pub trapping: bool,
}

impl ProcessFlags {
    /// No mark at all.
    pub open spec fn none() -> ProcessFlags {
        ProcessFlags {
            kthread: false,
            need_schedule: false,
            need_migrate: false,
            in_iowait: false,
            sched_contributes_to_load: false,
            exiting: false,
            need_rseq: false,
            ptraced: false,
            trace_syscall: false,
            trace_singlestep: false,
            trace_sysemu: false,
            pt_seized: false,
            ptrace_event_stop: false,
            pending_ptrace_stop: false,
            trapping: false,
        }
    }

    /// No mark at all.
    pub fn empty() -> (flags: ProcessFlags)
        ensures
            flags == ProcessFlags::none(),
    {
        ProcessFlags {
            kthread: false,
            need_schedule: false,
            need_migrate: false,
            in_iowait: false,
            sched_contributes_to_load: false,
            exiting: false,
            need_rseq: false,
            ptraced: false,
            trace_syscall: false,
            trace_singlestep: false,
            trace_sysemu: false,
            pt_seized: false,
            ptrace_event_stop: false,
            pending_ptrace_stop: false,
            trapping: false,
        }
    }

    pub open spec fn spec_with_need_schedule(&self, v: bool) -> ProcessFlags {
        ProcessFlags { need_schedule: v, ..*self }
    }

    /// The marks of a task that should give up the processor, or does not.
    #[verifier::when_used_as_spec(spec_with_need_schedule)]
    pub fn with_need_schedule(&self, v: bool) -> (flags: ProcessFlags)
        ensures
            flags == self.with_need_schedule(v),
    {
        ProcessFlags { need_schedule: v, ..*self }
    }

    pub open spec fn spec_with_need_migrate(&self, v: bool) -> ProcessFlags {
        ProcessFlags { need_migrate: v, ..*self }
    }

    /// The marks of a task that should move to another processor, or does not.
    #[verifier::when_used_as_spec(spec_with_need_migrate)]
    pub fn with_need_migrate(&self, v: bool) -> (flags: ProcessFlags)
        ensures
            flags == self.with_need_migrate(v),
    {
        ProcessFlags { need_migrate: v, ..*self }
    }

    pub open spec fn spec_with_in_iowait(&self, v: bool) -> ProcessFlags {
        ProcessFlags { in_iowait: v, ..*self }
    }

    /// The marks of a task that waits for input or output, or does not.
    #[verifier::when_used_as_spec(spec_with_in_iowait)]
    pub fn with_in_iowait(&self, v: bool) -> (flags: ProcessFlags)
        ensures
            flags == self.with_in_iowait(v),
    {
        ProcessFlags { in_iowait: v, ..*self }
    }

    pub open spec fn spec_with_sched_contributes_to_load(&self, v: bool) -> ProcessFlags {
        ProcessFlags { sched_contributes_to_load: v, ..*self }
    }

    /// The marks of a task that counts as load though it sleeps, or does not.
    #[verifier::when_used_as_spec(spec_with_sched_contributes_to_load)]
    pub fn with_sched_contributes_to_load(&self, v: bool) -> (flags: ProcessFlags)
        ensures
            flags == self.with_sched_contributes_to_load(v),
    {
        ProcessFlags { sched_contributes_to_load: v, ..*self }
    }

    pub open spec fn spec_with_need_rseq(&self, v: bool) -> ProcessFlags {
        ProcessFlags { need_rseq: v, ..*self }
    }

    /// The marks of a task that has its restartable sequence to be looked at, or does not.
    #[verifier::when_used_as_spec(spec_with_need_rseq)]
    pub fn with_need_rseq(&self, v: bool) -> (flags: ProcessFlags)
        ensures
            flags == self.with_need_rseq(v),
    {
        ProcessFlags { need_rseq: v, ..*self }
    }

    pub open spec fn spec_with_ptraced(&self, v: bool) -> ProcessFlags {
        ProcessFlags { ptraced: v, ..*self }
    }

    /// The marks of a task that is traced, or does not.
    #[verifier::when_used_as_spec(spec_with_ptraced)]
    pub fn with_ptraced(&self, v: bool) -> (flags: ProcessFlags)
        ensures
            flags == self.with_ptraced(v),
    {
        ProcessFlags { ptraced: v, ..*self }
    }

    pub open spec fn spec_with_trace_syscall(&self, v: bool) -> ProcessFlags {
        ProcessFlags { trace_syscall: v, ..*self }
    }

    /// The marks of a task that stops at system calls, or does not.
    #[verifier::when_used_as_spec(spec_with_trace_syscall)]
    pub fn with_trace_syscall(&self, v: bool) -> (flags: ProcessFlags)
        ensures
            flags == self.with_trace_syscall(v),
    {
        ProcessFlags { trace_syscall: v, ..*self }
    }

    pub open spec fn spec_with_trace_singlestep(&self, v: bool) -> ProcessFlags {
        ProcessFlags { trace_singlestep: v, ..*self }
    }

    /// The marks of a task that stops after each instruction, or does not.
    #[verifier::when_used_as_spec(spec_with_trace_singlestep)]
    pub fn with_trace_singlestep(&self, v: bool) -> (flags: ProcessFlags)
        ensures
            flags == self.with_trace_singlestep(v),
    {
        ProcessFlags { trace_singlestep: v, ..*self }
    }

    pub open spec fn spec_with_trace_sysemu(&self, v: bool) -> ProcessFlags {
        ProcessFlags { trace_sysemu: v, ..*self }
    }

    /// The marks of a task that stops at system calls, which are then not made, or does not.
    #[verifier::when_used_as_spec(spec_with_trace_sysemu)]
    pub fn with_trace_sysemu(&self, v: bool) -> (flags: ProcessFlags)
        ensures
            flags == self.with_trace_sysemu(v),
    {
        ProcessFlags { trace_sysemu: v, ..*self }
    }

    pub open spec fn spec_with_pt_seized(&self, v: bool) -> ProcessFlags {
        ProcessFlags { pt_seized: v, ..*self }
    }

    /// The marks of a task that was seized by its tracer, or does not.
    #[verifier::when_used_as_spec(spec_with_pt_seized)]
    pub fn with_pt_seized(&self, v: bool) -> (flags: ProcessFlags)
        ensures
            flags == self.with_pt_seized(v),
    {
        ProcessFlags { pt_seized: v, ..*self }
    }

    pub open spec fn spec_with_ptrace_event_stop(&self, v: bool) -> ProcessFlags {
        ProcessFlags { ptrace_event_stop: v, ..*self }
    }

    /// The marks of a task that is in an event stop, or does not.
    #[verifier::when_used_as_spec(spec_with_ptrace_event_stop)]
    pub fn with_ptrace_event_stop(&self, v: bool) -> (flags: ProcessFlags)
        ensures
            flags == self.with_ptrace_event_stop(v),
    {
        ProcessFlags { ptrace_event_stop: v, ..*self }
    }

    pub open spec fn spec_with_pending_ptrace_stop(&self, v: bool) -> ProcessFlags {
        ProcessFlags { pending_ptrace_stop: v, ..*self }
    }

    /// The marks of a task that has a tracing stop to come, or does not.
    #[verifier::when_used_as_spec(spec_with_pending_ptrace_stop)]
    pub fn with_pending_ptrace_stop(&self, v: bool) -> (flags: ProcessFlags)
        ensures
            flags == self.with_pending_ptrace_stop(v),
    {
        ProcessFlags { pending_ptrace_stop: v, ..*self }
    }

    pub open spec fn spec_with_trapping(&self, v: bool) -> ProcessFlags {
        ProcessFlags { trapping: v, ..*self }
    }

    /// The marks of a task that is on its way into a tracing stop, or does not.
    #[verifier::when_used_as_spec(spec_with_trapping)]
    pub fn with_trapping(&self, v: bool) -> (flags: ProcessFlags)
        ensures
            flags == self.with_trapping(v),
    {
        ProcessFlags { trapping: v, ..*self }
    }

    pub open spec fn spec_without_trace_work(&self) -> ProcessFlags {
        ProcessFlags {
            trace_syscall: false,
            trace_singlestep: false,
            trace_sysemu: false,
            pt_seized: false,
            ..*self
        }
    }

    /// The marks without the work that a tracer asked for.
    #[verifier::when_used_as_spec(spec_without_trace_work)]
    pub fn without_trace_work(&self) -> (flags: ProcessFlags)
        ensures
            flags == self.without_trace_work(),
    {
        ProcessFlags {
            trace_syscall: false,
            trace_singlestep: false,
            trace_sysemu: false,
            pt_seized: false,
            ..*self
        }
    }

    pub open spec fn spec_without_stop_marks(&self) -> ProcessFlags {
        ProcessFlags {
            ptrace_event_stop: false,
            pending_ptrace_stop: false,
            trapping: false,
            ..*self
        }
    }

    /// The marks without any sign of a tracing stop.
    #[verifier::when_used_as_spec(spec_without_stop_marks)]
    pub fn without_stop_marks(&self) -> (flags: ProcessFlags)
        ensures
            flags == self.without_stop_marks(),
    {
        ProcessFlags {
            ptrace_event_stop: false,
            pending_ptrace_stop: false,
            trapping: false,
            ..*self
        }
    }
}

/// How far a task is on its way out.
#[derive(Debug, Clone, Copy, PartialEq, Eq, Structural)]
pub enum ExitState {
    Running,
    Zombie,
    Dead,
}

/// The identity under which a task acts.
#[derive(Debug, Clone, Copy, PartialEq, Eq, Structural)]
pub struct Cred {
    pub uid: u32,
    pub euid: u32,
    pub suid: u32,
    pub gid: u32,
    pub egid: u32,
    pub sgid: u32,
    /// May trace any process.
    pub cap_sys_ptrace: bool,
}

/// A task.
#[derive(Debug, Clone, Copy)]
pub struct ProcessControlBlock {
    /// The number of the task.
    pub raw_pid: RawPid,
    /// The number of the task in the namespace of the running process.
    pub vpid: RawPid,
    /// The number of the process that the task is a thread of.
    pub tgid: RawPid,
    /// The task can be found by its number.
    pub hashed: bool,
    /// Something still holds on to the task, so that references to it can be
    /// followed.
    pub alive: bool,
    pub flags: ProcessFlags,
    pub sched_info: ProcessSchedulerInfo,
    pub exit_state: ExitState,
    pub ptrace_state: PtraceState,
    /// The task that traces this one.
    pub ptracer: Option<TaskId>,
    pub real_parent: Option<TaskId>,
    /// The task that called fork.
    pub fork_parent: Option<TaskId>,
    pub group_leader: Option<TaskId>,
    pub cred: Cred,
    /// Whether the memory of the task may be looked at; 0 means no.
    pub dumpable: u8,
    /// The signals that the task does not take.
    pub sig_blocked: SigSet,
    /// The signals that wait for the task.
    pub sig_pending: SigSet,
    /// Some signal that the task would take waits for it.
    pub has_pending_signal: bool,
    /// The place of the signal state of its process.
    pub sighand: usize,
    pub kernel_stack: KernelStack,
    pub syscall_stack: KernelStack,
    /// The stack pointer with which the task was switched out.
    pub kernel_rsp: usize,
    /// The user registers at the top of the kernel stack.
    pub kernel_frame: TrapFrame,
    /// The user registers at the top of the system call stack.
    pub syscall_frame: TrapFrame,
    /// The place of the address space.
    pub user_vm: Option<usize>,
    /// How often the task gave up the processor.
    pub nvcsw: u64,
    /// How often the task was made to give up the processor.
    pub nivcsw: u64,
    /// The task has a restartable sequence.
    pub rseq_registered: bool,
}

impl ProcessControlBlock {
    pub open spec fn spec_fatal_signal_pending(&self) -> bool {
        self.sig_pending.contains(Signal { nr: Signal::SIGKILL })
    }

    /// Whether `SIGKILL` waits for the task.
    #[verifier::when_used_as_spec(spec_fatal_signal_pending)]
    pub fn fatal_signal_pending(&self) -> (b: bool)
        ensures
            b == self.fatal_signal_pending(),
    {
        self.sig_pending.contains(Signal { nr: Signal::SIGKILL })
    }

    pub open spec fn spec_signal_pending_state(
        &self,
        interruptible: bool,
        wake_kill: bool,
    ) -> bool {
        (interruptible || wake_kill) && self.has_pending_signal && (interruptible
            || self.fatal_signal_pending())
    }

    /// Whether a signal keeps the task from going to sleep: any signal if the
    /// sleep is interruptible, only `SIGKILL` if it is at least killable, and
    /// none otherwise.
    #[verifier::when_used_as_spec(spec_signal_pending_state)]
    pub fn signal_pending_state(&self, interruptible: bool, wake_kill: bool) -> (b: bool)
        ensures
            b == self.signal_pending_state(interruptible, wake_kill),
    {
        (interruptible || wake_kill) && self.has_pending_signal && (interruptible
            || self.fatal_signal_pending())
    }

    pub open spec fn spec_with_on_rq(&self, on_rq: OnRq) -> ProcessControlBlock {
        ProcessControlBlock {
            sched_info: ProcessSchedulerInfo { on_rq, ..self.sched_info },
            ..*self
        }
    }

    /// The task at another place with respect to run queues.
    #[verifier::when_used_as_spec(spec_with_on_rq)]
    pub fn with_on_rq(&self, on_rq: OnRq) -> (pcb: ProcessControlBlock)
        ensures
            pcb == self.with_on_rq(on_rq),
    {
        ProcessControlBlock {
            sched_info: ProcessSchedulerInfo { on_rq, ..self.sched_info },
            ..*self
        }
    }

    pub open spec fn spec_with_sched_stat(&self, sched_stat: SchedInfo) -> ProcessControlBlock {
        ProcessControlBlock {
            sched_info: ProcessSchedulerInfo { sched_stat, ..self.sched_info },
            ..*self
        }
    }

    /// The task with another record of its waits.
    #[verifier::when_used_as_spec(spec_with_sched_stat)]
    pub fn with_sched_stat(&self, sched_stat: SchedInfo) -> (pcb: ProcessControlBlock)
        ensures
            pcb == self.with_sched_stat(sched_stat),
    {
        ProcessControlBlock {
            sched_info: ProcessSchedulerInfo { sched_stat, ..self.sched_info },
            ..*self
        }
    }

    pub open spec fn spec_with_flags(&self, flags: ProcessFlags) -> ProcessControlBlock {
        ProcessControlBlock { flags, ..*self }
    }

    /// The task with other marks.
    #[verifier::when_used_as_spec(spec_with_flags)]
    pub fn with_flags(&self, flags: ProcessFlags) -> (pcb: ProcessControlBlock)
        ensures
            pcb == self.with_flags(flags),
    {
        ProcessControlBlock { flags, ..*self }
    }

    pub open spec fn spec_with_state(&self, state: ProcessState) -> ProcessControlBlock {
        ProcessControlBlock {
            sched_info: ProcessSchedulerInfo { state, ..self.sched_info },
            ..*self
        }
    }

    /// The task in another state.
    #[verifier::when_used_as_spec(spec_with_state)]
    pub fn with_state(&self, state: ProcessState) -> (pcb: ProcessControlBlock)
        ensures
            pcb == self.with_state(state),
    {
        ProcessControlBlock {
            sched_info: ProcessSchedulerInfo { state, ..self.sched_info },
            ..*self
        }
    }

    pub open spec fn spec_with_on_cpu(&self, on_cpu: Option<ProcessorId>) -> ProcessControlBlock {
        ProcessControlBlock {
            sched_info: ProcessSchedulerInfo { on_cpu, ..self.sched_info },
            ..*self
        }
    }

    /// The task as it runs on a processor, or on none.
    #[verifier::when_used_as_spec(spec_with_on_cpu)]
    pub fn with_on_cpu(&self, on_cpu: Option<ProcessorId>) -> (pcb: ProcessControlBlock)
        ensures
            pcb == self.with_on_cpu(on_cpu),
    {
        ProcessControlBlock {
            sched_info: ProcessSchedulerInfo { on_cpu, ..self.sched_info },
            ..*self
        }
    }

    pub open spec fn spec_runnable(&self) -> ProcessControlBlock {
        ProcessControlBlock {
            sched_info: ProcessSchedulerInfo {
                state: ProcessState::Runnable,
                mark_sleep: false,
                ..self.sched_info
            },
            ..*self
        }
    }

    /// The task as it is neither asleep nor about to fall asleep.
    #[verifier::when_used_as_spec(spec_runnable)]
    pub fn runnable(&self) -> (pcb: ProcessControlBlock)
        ensures
            pcb == self.runnable(),
    {
        ProcessControlBlock {
            sched_info: ProcessSchedulerInfo {
                state: ProcessState::Runnable,
                mark_sleep: false,
                ..self.sched_info
            },
            ..*self
        }
    }

    /// Whether this is still the same task: found by the same number, in the same
    /// process.
    pub open spec fn same_identity(self, before: ProcessControlBlock) -> bool {
        &&& self.raw_pid == before.raw_pid
        &&& self.tgid == before.tgid
        &&& self.hashed == before.hashed
        &&& self.alive == before.alive
        &&& self.sighand == before.sighand
    }

    /// What a scheduling class leaves alone of a task: everything but what the fair
    /// class keeps of it, and whether it should give up the processor. The fair run
    /// queue that it belongs to stays, too, and so does its group.
    pub open spec fn spared_by_class(self, after: ProcessControlBlock) -> bool {
        &&& after.sched_info.sched_stat == self.sched_info.sched_stat
        &&& after.sched_info.on_rq == self.sched_info.on_rq
        &&& self.kept_by_queueing(after)
    }

    /// What is left alone of a task when it is put on a run queue or taken off one: in
    /// addition to what its class may change, where it stands and since when it waits.
    #[verifier::opaque]
    pub open spec fn kept_by_queueing(self, after: ProcessControlBlock) -> bool {
        &&& after.flags == self.flags.with_need_schedule(after.flags.need_schedule)
        &&& after.sched_info.sched_entity.cfs_rq == self.sched_info.sched_entity.cfs_rq
        &&& after.sched_info.sched_entity.cfs_group == self.sched_info.sched_entity.cfs_group
        &&& after.sched_info.sched_entity.parent == self.sched_info.sched_entity.parent
        &&& after.sched_info.policy == self.sched_info.policy
        &&& after.sched_info.prio == self.sched_info.prio
        &&& after.sched_info.static_prio == self.sched_info.static_prio
        &&& after.sched_info.normal_prio == self.sched_info.normal_prio
        &&& after.sched_info.rt_priority == self.sched_info.rt_priority
        &&& after.sched_info.cpu == self.sched_info.cpu
        &&& after.sched_info.on_cpu == self.sched_info.on_cpu
        &&& after.sched_info.state == self.sched_info.state
        &&& after.sched_info.mark_sleep == self.sched_info.mark_sleep
        &&& after.sched_info.wake_kill == self.sched_info.wake_kill
        &&& after.sched_info.migrate_to == self.sched_info.migrate_to
        &&& after.sched_info.cpus_allowed == self.sched_info.cpus_allowed
        &&& after.raw_pid == self.raw_pid
        &&& after.vpid == self.vpid
        &&& after.tgid == self.tgid
        &&& after.hashed == self.hashed
        &&& after.alive == self.alive
        &&& after.exit_state == self.exit_state
        &&& after.ptrace_state == self.ptrace_state
        &&& after.ptracer == self.ptracer
        &&& after.real_parent == self.real_parent
        &&& after.fork_parent == self.fork_parent
        &&& after.group_leader == self.group_leader
        &&& after.cred == self.cred
        &&& after.dumpable == self.dumpable
        &&& after.sig_blocked == self.sig_blocked
        &&& after.sig_pending == self.sig_pending
        &&& after.has_pending_signal == self.has_pending_signal
        &&& after.sighand == self.sighand
        &&& after.kernel_stack == self.kernel_stack
        &&& after.syscall_stack == self.syscall_stack
        &&& after.kernel_rsp == self.kernel_rsp
        &&& after.kernel_frame == self.kernel_frame
        &&& after.syscall_frame == self.syscall_frame
        &&& after.user_vm == self.user_vm
        &&& after.nvcsw == self.nvcsw
        &&& after.nivcsw == self.nivcsw
        &&& after.rseq_registered == self.rseq_registered
    }

    /// A task is left alone if nothing happens.
    pub proof fn lemma_kept_self(self)
        ensures
            self.kept_by_queueing(self),
    {
        reveal(ProcessControlBlock::kept_by_queueing);
    }

    /// Noting how long a task waits leaves alone what queueing does.
    #[verifier::rlimit(60)]
    pub proof fn lemma_kept_stat(self, stat: SchedInfo)
        ensures
            self.kept_by_queueing(self.with_sched_stat(stat)),
    {
        reveal(ProcessControlBlock::kept_by_queueing);
    }

    /// What two steps leave alone of a task, the two together leave alone.
    pub proof fn lemma_kept_on(self, mid: ProcessControlBlock, after: ProcessControlBlock)
        requires
            self.kept_by_queueing(mid),
            mid.kept_by_queueing(after),
        ensures
            self.kept_by_queueing(after),
    {
        reveal(ProcessControlBlock::kept_by_queueing);
    }

    /// What of a task that was left alone the scheduler reads.
    pub open spec fn kept_facts(self, after: ProcessControlBlock) -> bool {
        &&& after.flags == self.flags.with_need_schedule(after.flags.need_schedule)
        &&& after.sched_info.policy == self.sched_info.policy
        &&& after.sched_info.cpu == self.sched_info.cpu
        &&& after.sched_info.on_cpu == self.sched_info.on_cpu
        &&& after.sched_info.state == self.sched_info.state
        &&& after.sched_info.mark_sleep == self.sched_info.mark_sleep
        &&& after.sched_info.cpus_allowed == self.sched_info.cpus_allowed
        &&& after.sched_info.migrate_to == self.sched_info.migrate_to
        &&& after.sched_info.sched_entity.cfs_rq == self.sched_info.sched_entity.cfs_rq
        &&& after.sched_info.sched_entity.cfs_group == self.sched_info.sched_entity.cfs_group
        &&& after.sched_info.sched_entity.parent == self.sched_info.sched_entity.parent
        &&& after.alive == self.alive
        &&& after.hashed == self.hashed
        &&& after.raw_pid == self.raw_pid
        &&& after.sighand == self.sighand
        &&& self.stays(after)
    }

    /// What is known of a task that was left alone.
    pub proof fn lemma_kept(self, after: ProcessControlBlock)
        requires
            self.kept_by_queueing(after),
        ensures
            self.kept_facts(after),
    {
        reveal(ProcessControlBlock::kept_by_queueing);
    }

    /// What is counted of a task stays with it if it was left alone.
    pub proof fn lemma_kept_counts(self, after: ProcessControlBlock)
        requires
            self.kept_by_queueing(after),
        ensures
            after.nvcsw == self.nvcsw,
            after.nivcsw == self.nivcsw,
            after.rseq_registered == self.rseq_registered,
    {
        reveal(ProcessControlBlock::kept_by_queueing);
    }

    /// What stays of a task through every step of the scheduler short of a switch:
    /// it may be queued, moved or put to sleep, and stop running, but no more.
    pub open spec fn stays(self, after: ProcessControlBlock) -> bool {
        &&& after.alive == self.alive
        &&& after.hashed == self.hashed
        &&& after.raw_pid == self.raw_pid
        &&& after.sched_info.policy == self.sched_info.policy
        &&& after.sched_info.cpus_allowed == self.sched_info.cpus_allowed
        &&& after.sched_info.on_cpu is Some ==> after.sched_info.on_cpu == self.sched_info.on_cpu
    }
}

/// Each mark is set and taken off for itself.
pub proof fn law_marks_are_set_one_by_one(f: ProcessFlags, v: bool)
    ensures
        f.with_need_schedule(v) == (ProcessFlags { need_schedule: v, ..f }),
        f.with_need_migrate(v) == (ProcessFlags { need_migrate: v, ..f }),
        f.with_in_iowait(v) == (ProcessFlags { in_iowait: v, ..f }),
        f.with_sched_contributes_to_load(v) == (ProcessFlags { sched_contributes_to_load: v, ..f }),
        f.with_need_rseq(v) == (ProcessFlags { need_rseq: v, ..f }),
        f.with_ptraced(v) == (ProcessFlags { ptraced: v, ..f }),
        f.with_trace_syscall(v) == (ProcessFlags { trace_syscall: v, ..f }),
        f.with_trace_singlestep(v) == (ProcessFlags { trace_singlestep: v, ..f }),
        f.with_trace_sysemu(v) == (ProcessFlags { trace_sysemu: v, ..f }),
        f.with_pt_seized(v) == (ProcessFlags { pt_seized: v, ..f }),
        f.with_ptrace_event_stop(v) == (ProcessFlags { ptrace_event_stop: v, ..f }),
        f.with_pending_ptrace_stop(v) == (ProcessFlags { pending_ptrace_stop: v, ..f }),
        f.with_trapping(v) == (ProcessFlags { trapping: v, ..f }),
        ({
            let none = ProcessFlags::none();
            &&& !none.kthread && !none.need_schedule && !none.need_migrate && !none.in_iowait
            &&& !none.sched_contributes_to_load && !none.exiting && !none.need_rseq
            &&& !none.ptraced && !none.trace_syscall && !none.trace_singlestep
            &&& !none.trace_sysemu && !none.pt_seized && !none.ptrace_event_stop
            &&& !none.pending_ptrace_stop && !none.trapping
        }),
{
}

/// What the scheduler notes of a task changes just that. A task that can run neither sleeps nor is
/// about to.
pub proof fn law_notes_of_the_scheduler(
    p: ProcessControlBlock,
    on_rq: OnRq,
    stat: SchedInfo,
    state: ProcessState,
    on_cpu: Option<ProcessorId>,
)
    ensures
        p.with_on_rq(on_rq).sched_info == (ProcessSchedulerInfo { on_rq, ..p.sched_info }),
        p.with_sched_stat(stat).sched_info == (ProcessSchedulerInfo {
            sched_stat: stat,
            ..p.sched_info
        }),
        p.with_state(state).sched_info == (ProcessSchedulerInfo { state, ..p.sched_info }),
        p.with_on_cpu(on_cpu).sched_info == (ProcessSchedulerInfo { on_cpu, ..p.sched_info }),
        p.runnable().sched_info == (ProcessSchedulerInfo {
            state: ProcessState::Runnable,
            mark_sleep: false,
            ..p.sched_info
        }),
        p.with_on_rq(on_rq).flags == p.flags,
        p.with_sched_stat(stat).flags == p.flags,
        p.with_state(state).flags == p.flags,
        p.with_on_cpu(on_cpu).flags == p.flags,
        p.runnable().flags == p.flags,
        p.with_on_rq(on_rq).ptrace_state == p.ptrace_state,
        p.with_sched_stat(stat).ptrace_state == p.ptrace_state,
        p.with_state(state).ptrace_state == p.ptrace_state,
        p.with_on_cpu(on_cpu).ptrace_state == p.ptrace_state,
        p.runnable().ptrace_state == p.ptrace_state,
{
}

} // verus!
