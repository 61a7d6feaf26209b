//! Tracing stops: how a task comes to stand still for its tracer, and goes on.
use crate::libs::spinlock::IrqFlagsGuard;
use crate::process::action::Action;
use crate::process::manager::{ProcessManager, ProcessManagerView};
use crate::process::pcb::{ProcessControlBlock, TaskId};
use crate::process::signal::{
    PidType, RawPid, SigChildCode, SigCode, SigHand, SigInfo, SigType, Signal,
};
use crate::ptrace::relation::{is_ptraced, ptracer_of};
use crate::ptrace::state::PtraceState;
use crate::sched::entity::ProcessState;
use vstd::prelude::*;

verus! {

/// Reads the stack pointer of the processor, with `x86::current::registers::rsp`. Nothing is
/// claimed of its value, which is whatever the machine has in the register.
#[verifier::external_body]
fn current_rsp() -> (rsp: u64) {
    x86::current::registers::rsp()
}

impl PtraceState {
    pub open spec fn spec_stopped_for(
        &self,
        exit_code: usize,
        stop_frame_on_syscall_stack: bool,
        last_siginfo: Option<SigInfo>,
    ) -> PtraceState {
        PtraceState {
            exit_code,
            listening: false,
            stop_report_pending: true,
            in_ptrace_stop: true,
            stop_frame_on_syscall_stack,
            last_siginfo,
            ..*self
        }
    }

    /// The state of a task in a stop: it has a code, and is reported to who waits for it.
    #[verifier::when_used_as_spec(spec_stopped_for)]
    pub fn stopped_for(
        &self,
        exit_code: usize,
        stop_frame_on_syscall_stack: bool,
        last_siginfo: Option<SigInfo>,
    ) -> (state: PtraceState)
        ensures
            state == self.stopped_for(exit_code, stop_frame_on_syscall_stack, last_siginfo),
    {
        PtraceState {
            exit_code,
            listening: false,
            stop_report_pending: true,
            in_ptrace_stop: true,
            stop_frame_on_syscall_stack,
            last_siginfo,
            ..*self
        }
    }

    pub open spec fn spec_after_stop(&self) -> PtraceState {
        PtraceState {
            injected_signal: Signal { nr: Signal::INVALID },
            listening: false,
            stop_report_pending: false,
            in_ptrace_stop: false,
            last_siginfo: None,
            event_message: 0,
            exit_code: 0,
            ..*self
        }
    }

    /// The state of a task that goes on after a stop.
    #[verifier::when_used_as_spec(spec_after_stop)]
    pub fn after_stop(&self) -> (state: PtraceState)
        ensures
            state == self.after_stop(),
    {
        PtraceState {
            injected_signal: Signal { nr: Signal::INVALID },
            listening: false,
            stop_report_pending: false,
            in_ptrace_stop: false,
            last_siginfo: None,
            event_message: 0,
            exit_code: 0,
            ..*self
        }
    }
}

impl ProcessControlBlock {
    pub open spec fn spec_stopped_for(
        &self,
        exit_code: usize,
        rsp: usize,
        info: Option<SigInfo>,
    ) -> ProcessControlBlock {
        self.with_ptrace_state(
            self.ptrace_state.stopped_for(exit_code, self.syscall_stack.holds(rsp), info),
        ).with_state(ProcessState::Stopped)
    }

    /// The task in a stop; `rsp` is the stack pointer with which it stops.
    #[verifier::when_used_as_spec(spec_stopped_for)]
    pub fn stopped_for(
        &self,
        exit_code: usize,
        rsp: usize,
        info: Option<SigInfo>,
    ) -> (pcb: ProcessControlBlock)
        ensures
            pcb == self.stopped_for(exit_code, rsp, info),
    {
        self.with_ptrace_state(
            self.ptrace_state.stopped_for(exit_code, self.syscall_stack.holds(rsp), info),
        ).with_state(ProcessState::Stopped)
    }

    #[verifier::opaque]
    pub open spec fn spec_not_trapping(&self) -> ProcessControlBlock {
        self.with_flags(self.flags.with_trapping(false))
    }

    /// The task as it is not on its way into a stop.
    #[verifier::when_used_as_spec(spec_not_trapping)]
    pub fn not_trapping(&self) -> (pcb: ProcessControlBlock)
        ensures
            pcb == self.not_trapping(),
    {
        reveal(ProcessControlBlock::spec_not_trapping);
        self.with_flags(self.flags.with_trapping(false))
    }

    #[verifier::opaque]
    pub open spec fn spec_standing_still(
        &self,
        exit_code: usize,
        rsp: usize,
        info: Option<SigInfo>,
    ) -> ProcessControlBlock {
        self.not_trapping().stopped_for(exit_code, rsp, info)
    }

    /// The task in a stop at the end of its way into it.
    #[verifier::when_used_as_spec(spec_standing_still)]
    pub fn standing_still(
        &self,
        exit_code: usize,
        rsp: usize,
        info: Option<SigInfo>,
    ) -> (pcb: ProcessControlBlock)
        ensures
            pcb == self.standing_still(exit_code, rsp, info),
    {
        reveal(ProcessControlBlock::spec_standing_still);
        self.not_trapping().stopped_for(exit_code, rsp, info)
    }

    /// A stop changes nothing of who the task is.
    proof fn lemma_standing_still(self, exit_code: usize, rsp: usize, info: Option<SigInfo>)
        ensures
            self.not_trapping().same_identity(self),
            self.standing_still(exit_code, rsp, info).same_identity(self),
    {
        reveal(ProcessControlBlock::spec_not_trapping);
        reveal(ProcessControlBlock::spec_standing_still);
    }
}

impl ProcessManagerView {
    /// A task has come out of the way into a stop as `p`, and who waits for that goes on.
    pub open spec fn trap_over(self, t: TaskId, p: ProcessControlBlock) -> ProcessManagerView {
        self.with_task(t, p).with_action(Action::WakeTrapWaiters(t))
    }
}

/// How far a task is on its way through a tracing stop.
#[derive(Debug, PartialEq, Eq)]
pub enum StopStep {
    /// It goes on, with a signal number or 0.
    Done(usize),
    /// It stands still. If there is a signal in `participate`, the task takes part in the
    /// stop of its whole process by that signal. `ptrace_stop_notify` goes on, then the
    /// processor is given up, and when the task runs again `ptrace_stop_resume` ends the
    /// stop.
    Stopped { participate: Option<Signal>, irq_guard: IrqFlagsGuard },
}

/// The signal in the code of a stop of a whole process.
pub open spec fn group_stop_signal(exit_code: usize, why: SigChildCode) -> Option<Signal> {
    let signal = Signal::from_i32((exit_code & 0x7f) as i32);
    if why == SigChildCode::Stopped && signal.is_kernel_stop() {
        Some(signal)
    } else {
        None
    }
}

/// What a parent is told of a child that changes its state.
pub open spec fn child_siginfo(pid: RawPid, why: SigChildCode, status: i32) -> SigInfo {
    SigInfo {
        signo: Signal { nr: Signal::SIGCHLD },
        errno: 0,
        code: SigCode::Raw(why.as_i32()),
        kind: SigType::SigChild { pid, uid: 0, status, utime: 0, stime: 0 },
    }
}

/// Whether a tracer wants `SIGCHLD` when its tracee changes its state: it does not ignore
/// it, and stops count unless it does not want to hear of them; a tracing stop counts in any
/// case.
pub open spec fn wants_sigchld(sighand: SigHand, why: SigChildCode) -> bool {
    match sighand.sigchld {
        Some(a) => !a.ignore && (why == SigChildCode::Trapped || !a.no_cld_stop),
        None => false,
    }
}

/// What a tracer is told in the status.
pub open spec fn notify_status(why: SigChildCode, stop_code: usize) -> i32 {
    if why == SigChildCode::Stopped || why == SigChildCode::Trapped {
        (stop_code & 0x7f) as i32
    } else {
        Signal::SIGCONT as i32
    }
}

/// A tracer is told of its tracee: by `SIGCHLD` if it wants that, and in any case it is
/// woken, and the first thread of its process too, if they wait.
pub open spec fn tracer_notified(
    pm: ProcessManagerView,
    tracee: TaskId,
    tracer: TaskId,
    why: SigChildCode,
    stop_code: usize,
) -> ProcessManagerView {
    let told = if wants_sigchld(pm.sighand(tracer), why) {
        pm.with_action(
            Action::SendSignal {
                signal: Signal { nr: Signal::SIGCHLD },
                info: Some(
                    child_siginfo(
                        pm.task(tracee).raw_pid,
                        why,
                        notify_status(why, stop_code),
                    ),
                ),
                to: tracer,
                scope: PidType::TGID,
            },
        )
    } else {
        pm
    };
    let woken = told.with_action(Action::WakeAllWaiters(tracer));
    match pm.upgrade(pm.task(tracer).group_leader) {
        Some(leader) => if leader != tracer {
            woken.with_action(Action::WakeAllWaiters(leader))
        } else {
            woken
        },
        None => woken,
    }
}

/// The parent that is told when a whole process has stopped, if it is not of the process
/// of the tracer, who is told anyway.
pub open spec fn stop_parent(pm: ProcessManagerView, tracee: TaskId) -> Option<TaskId> {
    match (pm.upgrade(pm.task(tracee).ptracer), pm.upgrade(pm.task(tracee).real_parent)) {
        (Some(tracer), Some(parent)) => if pm.task(tracer).tgid != pm.task(parent).tgid {
            Some(parent)
        } else {
            None
        },
        (None, Some(parent)) => Some(parent),
        _ => None,
    }
}

/// A parent is told that a whole process has stopped.
pub open spec fn parent_notified(
    pm: ProcessManagerView,
    tracee: TaskId,
    parent: TaskId,
    exit_code: usize,
) -> ProcessManagerView {
    pm.with_action(
        Action::SendSignal {
            signal: Signal { nr: Signal::SIGCHLD },
            info: Some(
                child_siginfo(
                    pm.task(tracee).raw_pid,
                    SigChildCode::Stopped,
                    (exit_code & 0x7f) as i32,
                ),
            ),
            to: parent,
            scope: PidType::TGID,
        },
    ).with_action(Action::WakeAllWaiters(parent))
}

/// Who is told of a stop: the tracer, and if the whole process has stopped its parent.
pub open spec fn stop_notified(
    pm: ProcessManagerView,
    tracee: TaskId,
    exit_code: usize,
    why: SigChildCode,
    gstop_done: bool,
) -> ProcessManagerView {
    let told = match pm.upgrade(pm.task(tracee).ptracer) {
        Some(tracer) => tracer_notified(pm, tracee, tracer, why, exit_code),
        None => pm,
    };
    match stop_parent(pm, tracee) {
        Some(parent) => if gstop_done {
            parent_notified(told, tracee, parent, exit_code)
        } else {
            told
        },
        None => told,
    }
}

/// How a task that shall stop for its tracer begins with that: one that is not traced goes on
/// with the code, one that is being killed with nothing, and any other stands still.
pub open spec fn stop_step(
    pm: ProcessManagerView,
    t: TaskId,
    exit_code: usize,
    why: SigChildCode,
) -> StopStep {
    if !pm.is_ptraced(t) {
        StopStep::Done(exit_code)
    } else if pm.task(t).fatal_signal_pending() {
        StopStep::Done(0)
    } else {
        StopStep::Stopped {
            participate: group_stop_signal(exit_code, why),
            irq_guard: IrqFlagsGuard { was_enabled: pm.irq_enabled },
        }
    }
}

/// What becomes of a task that shall stop for its tracer: in any case it is not on its way
/// into a stop any more, and if it stands still, then with interrupts off.
pub open spec fn stop_begun(
    pm: ProcessManagerView,
    t: TaskId,
    exit_code: usize,
    rsp: usize,
    info: Option<SigInfo>,
) -> ProcessManagerView {
    let p = pm.task(t);
    if !pm.is_ptraced(t) {
        pm.trapping_cleared(t)
    } else if p.fatal_signal_pending() {
        pm.trap_over(t, p.not_trapping())
    } else {
        pm.trap_over(t, p.standing_still(exit_code, rsp, info)).irq_off()
    }
}

/// A task goes on after a stop, and looks again whether a signal waits for it.
pub open spec fn stop_ended(
    pm: ProcessManagerView,
    t: TaskId,
    irq_guard: IrqFlagsGuard,
) -> ProcessManagerView {
    let p = pm.task(t);
    let on = pm.with_task(t, p.with_ptrace_state(p.ptrace_state.after_stop()));
    let looked = if p.alive {
        on.with_action(Action::RecalcSigpending(t))
    } else {
        on
    };
    looked.irq_restored(Some(irq_guard))
}

/// The signal of a stop after the stop: where there was one, what the tracer has left of it.
pub open spec fn resume_info(state: PtraceState, info: Option<SigInfo>) -> Option<SigInfo> {
    if info is Some && state.last_siginfo is Some {
        state.last_siginfo
    } else {
        info
    }
}

/// What a task goes on with after a stop: the number of the signal that its tracer gave it.
pub open spec fn resume_number(state: PtraceState) -> usize {
    state.injected_signal.nr as usize
}

impl ProcessControlBlock {
    /// Has the task that is at work stop for its tracer. A task that is not traced goes on
    /// with the code, and one that is being killed with nothing. `info` is the signal of the
    /// stop.
    pub fn ptrace_stop(
        pm: &mut ProcessManager,
        t: TaskId,
        exit_code: usize,
        why: SigChildCode,
        info: Option<SigInfo>,
    ) -> (step: StopStep)
        requires
            old(pm)@.wf(),
            old(pm)@.has(t),
        ensures
            step == stop_step(old(pm)@, t, exit_code, why),
            exists|rsp: usize|
                final(pm)@ == #[trigger] stop_begun(old(pm)@, t, exit_code, rsp, info),
            final(pm)@.wf(),
            final(pm)@.current == old(pm)@.current,
    {
        let rsp: usize = #[verifier::truncate]
        (current_rsp() as usize);
        Self::ptrace_stop_at(pm, t, exit_code, why, info, rsp)
    }

    /// Has a task stop for its tracer with the stack pointer `rsp`. A task that is not traced
    /// goes on with the code, and one that is being killed with nothing. `info` is the signal
    /// of the stop.
    pub fn ptrace_stop_at(
        pm: &mut ProcessManager,
        t: TaskId,
        exit_code: usize,
        why: SigChildCode,
        info: Option<SigInfo>,
        rsp: usize,
    ) -> (step: StopStep)
        requires
            old(pm)@.wf(),
            old(pm)@.has(t),
        ensures
            step == stop_step(old(pm)@, t, exit_code, why),
            final(pm)@ == stop_begun(old(pm)@, t, exit_code, rsp, info),
            final(pm)@.wf(),
            final(pm)@.current == old(pm)@.current,
    {
        let p = pm.task(t);
        proof {
            p.lemma_standing_still(exit_code, rsp, info);
        }
        if !is_ptraced(pm, t) {
            Self::ptrace_clear_trapping(pm, t);
            StopStep::Done(exit_code)
        } else if p.fatal_signal_pending() {
            Self::trapped(pm, t, p.not_trapping());
            StopStep::Done(0)
        } else {
            let irq_guard = Self::stand_still(pm, t, p.standing_still(exit_code, rsp, info));
            StopStep::Stopped { participate: Self::participation(exit_code, why), irq_guard }
        }
    }

    /// Puts a task that stands still in its place, with interrupts off.
    fn stand_still(pm: &mut ProcessManager, t: TaskId, p: ProcessControlBlock) -> (guard:
        IrqFlagsGuard)
        requires
            old(pm)@.wf(),
            old(pm)@.has(t),
            p.sighand == old(pm)@.task(t).sighand,
        ensures
            guard == (IrqFlagsGuard { was_enabled: old(pm)@.irq_enabled }),
            final(pm)@ == old(pm)@.trap_over(t, p).irq_off(),
            final(pm)@.wf(),
    {
        let guard = pm.save_and_disable_irq();
        Self::trapped(pm, t, p);
        guard
    }

    /// Puts a task where it comes out of the way into a stop, and wakes who waits for that.
    fn trapped(pm: &mut ProcessManager, t: TaskId, p: ProcessControlBlock)
        requires
            old(pm)@.wf(),
            old(pm)@.has(t),
            p.sighand == old(pm)@.task(t).sighand,
        ensures
            final(pm)@ == old(pm)@.trap_over(t, p),
            final(pm)@.wf(),
    {
        pm.set_task(t, p);
        pm.act(Action::WakeTrapWaiters(t));
    }

    /// The signal by which a task takes part in the stop of its whole process.
    fn participation(exit_code: usize, why: SigChildCode) -> (signal: Option<Signal>)
        ensures
            signal == group_stop_signal(exit_code, why),
    {
        if why != SigChildCode::Stopped {
            return None;
        }
        let stop_sig = Signal::from_i32(
            #[verifier::truncate]
            ((exit_code & 0x7f) as i32),
        );
        if stop_sig.is_kernel_stop() {
            Some(stop_sig)
        } else {
            None
        }
    }

    /// Tells a tracer of its tracee.
    fn notify_tracer(
        pm: &mut ProcessManager,
        tracee: TaskId,
        tracer: TaskId,
        why: SigChildCode,
        stop_code: usize,
    )
        requires
            old(pm)@.wf(),
            old(pm)@.has(tracee),
            old(pm)@.has(tracer),
        ensures
            final(pm)@ == tracer_notified(old(pm)@, tracee, tracer, why, stop_code),
    {
        let should_send = match pm.sighand(tracer).sigchld {
            Some(a) => !a.ignore && (why == SigChildCode::Trapped || !a.no_cld_stop),
            None => false,
        };
        let leader = pm.upgrade(pm.task(tracer).group_leader);
        if should_send {
            let status: i32 = match why {
                SigChildCode::Stopped | SigChildCode::Trapped => #[verifier::truncate]
                ((stop_code & 0x7f) as i32),
                _ => Signal::SIGCONT as i32,
            };
            let info = Self::child_info(pm.task(tracee).raw_pid, why, status);
            pm.act(
                Action::SendSignal {
                    signal: Signal { nr: Signal::SIGCHLD },
                    info: Some(info),
                    to: tracer,
                    scope: PidType::TGID,
                },
            );
        }
        pm.act(Action::WakeAllWaiters(tracer));
        if let Some(leader) = leader {
            if leader != tracer {
                pm.act(Action::WakeAllWaiters(leader));
            }
        }
    }

    /// What a parent is told of a child that changes its state.
    fn child_info(pid: RawPid, why: SigChildCode, status: i32) -> (info: SigInfo)
        ensures
            info == child_siginfo(pid, why, status),
    {
        SigInfo {
            signo: Signal { nr: Signal::SIGCHLD },
            errno: 0,
            code: SigCode::Raw(why.as_i32()),
            kind: SigType::SigChild { pid, uid: 0, status, utime: 0, stime: 0 },
        }
    }

    /// The parent that is told when a whole process has stopped.
    fn parent_to_notify(pm: &ProcessManager, tracee: TaskId) -> (parent: Option<TaskId>)
        requires
            pm@.has(tracee),
        ensures
            parent == stop_parent(pm@, tracee),
    {
        let parent = match pm.upgrade(pm.task(tracee).real_parent) {
            Some(parent) => parent,
            None => {
                return None;
            },
        };
        match ptracer_of(pm, tracee) {
            Some(tracer) => if pm.task(tracer).tgid != pm.task(parent).tgid {
                Some(parent)
            } else {
                None
            },
            None => Some(parent),
        }
    }

    /// Tells the tracer of a stop, and if the whole process has stopped (`gstop_done`) its
    /// parent. Then the processor is given up.
    pub fn ptrace_stop_notify(
        pm: &mut ProcessManager,
        t: TaskId,
        exit_code: usize,
        why: SigChildCode,
        gstop_done: bool,
    )
        requires
            old(pm)@.wf(),
            old(pm)@.has(t),
        ensures
            final(pm)@ == stop_notified(old(pm)@, t, exit_code, why, gstop_done),
    {
        let pid = pm.task(t).raw_pid;
        let parent = Self::parent_to_notify(pm, t);
        if let Some(tracer) = ptracer_of(pm, t) {
            Self::notify_tracer(pm, t, tracer, why, exit_code);
        }
        if gstop_done {
            if let Some(parent) = parent {
                let status: i32 = #[verifier::truncate]
                ((exit_code & 0x7f) as i32);
                let info = Self::child_info(pid, SigChildCode::Stopped, status);
                pm.act(
                    Action::SendSignal {
                        signal: Signal { nr: Signal::SIGCHLD },
                        info: Some(info),
                        to: parent,
                        scope: PidType::TGID,
                    },
                );
                pm.act(Action::WakeAllWaiters(parent));
            }
        }
    }

    /// Ends a stop when the task runs again: the signal of the stop is what the tracer has
    /// made of it, and the task goes on with what the tracer gave it.
    pub fn ptrace_stop_resume(
        pm: &mut ProcessManager,
        t: TaskId,
        info: &mut Option<SigInfo>,
        irq_guard: IrqFlagsGuard,
    ) -> (signr: usize)
        requires
            old(pm)@.wf(),
            old(pm)@.has(t),
        ensures
            signr == resume_number(old(pm)@.task(t).ptrace_state),
            *final(info) == resume_info(old(pm)@.task(t).ptrace_state, *old(info)),
            final(pm)@ == stop_ended(old(pm)@, t, irq_guard),
    {
        let p = pm.task(t);
        if info.is_some() {
            if let Some(saved) = p.ptrace_state.last_siginfo {
                *info = Some(saved);
            }
        }
        let result: usize = p.ptrace_state.injected_signal.nr as usize;
        pm.set_task(t, p.with_ptrace_state(p.ptrace_state.after_stop()));
        if p.alive {
            pm.act(Action::RecalcSigpending(t));
        }
        pm.restore_irq(Some(irq_guard));
        result
    }
}

} // verus!
