//! What a tracer does to a task.
use crate::error::SystemError;
use crate::interrupt::trap_frame::TrapFrame;
use crate::process::action::Action;
use crate::process::manager::{ProcessManager, ProcessManagerView};
use crate::process::pcb::{ProcessControlBlock, TaskId};
use crate::process::signal::{RawPid, SigCode, SigInfo, SigSet, SigType, Signal};
use crate::ptrace::regs::X86_EFLAGS_TF;
use crate::ptrace::state::PtraceState;
use crate::ptrace::types::{PtraceEvent, PtraceOptions, PtraceRequest};
use vstd::prelude::*;

verus! {

impl PtraceState {
    pub open spec fn spec_armed(
        &self,
        exit_code: usize,
        stop_frame_on_syscall_stack: bool,
    ) -> PtraceState {
        PtraceState {
            in_ptrace_stop: true,
            stop_report_pending: true,
            exit_code,
            listening: false,
            last_siginfo: None,
            stop_frame_on_syscall_stack,
            ..*self
        }
    }

    /// The state of a task whose stop was turned into a tracing stop.
    #[verifier::when_used_as_spec(spec_armed)]
    pub fn armed(&self, exit_code: usize, stop_frame_on_syscall_stack: bool) -> (state: PtraceState)
        ensures
            state == self.armed(exit_code, stop_frame_on_syscall_stack),
    {
        PtraceState {
            in_ptrace_stop: true,
            stop_report_pending: true,
            exit_code,
            listening: false,
            last_siginfo: None,
            stop_frame_on_syscall_stack,
            ..*self
        }
    }

    pub open spec fn spec_detaching(&self, injected_signal: Signal) -> PtraceState {
        PtraceState {
            injected_signal,
            pending_event_stop: None,
            stop_report_pending: false,
            ..*self
        }
    }

    /// The state of a task that is about to be detached.
    #[verifier::when_used_as_spec(spec_detaching)]
    pub fn detaching(&self, injected_signal: Signal) -> (state: PtraceState)
        ensures
            state == self.detaching(injected_signal),
    {
        PtraceState {
            injected_signal,
            pending_event_stop: None,
            stop_report_pending: false,
            ..*self
        }
    }

    pub open spec fn spec_resuming(&self, injected_signal: Signal) -> PtraceState {
        PtraceState {
            injected_signal,
            listening: false,
            stop_report_pending: false,
            in_ptrace_stop: false,
            ..*self
        }
    }

    /// The state of a task that its tracer lets run.
    #[verifier::when_used_as_spec(spec_resuming)]
    pub fn resuming(&self, injected_signal: Signal) -> (state: PtraceState)
        ensures
            state == self.resuming(injected_signal),
    {
        PtraceState {
            injected_signal,
            listening: false,
            stop_report_pending: false,
            in_ptrace_stop: false,
            ..*self
        }
    }

    pub open spec fn spec_with_options(&self, options: PtraceOptions) -> PtraceState {
        PtraceState {
            options,
            ..*self
        }
    }

    /// The state with other options.
    #[verifier::when_used_as_spec(spec_with_options)]
    pub fn with_options(&self, options: PtraceOptions) -> (state: PtraceState)
        ensures
            state == self.with_options(options),
    {
        PtraceState {
            options,
            ..*self
        }
    }

    pub open spec fn spec_with_last_siginfo(&self, last_siginfo: Option<SigInfo>) -> PtraceState {
        PtraceState {
            last_siginfo,
            ..*self
        }
    }

    /// The state with another signal of the current stop.
    #[verifier::when_used_as_spec(spec_with_last_siginfo)]
    pub fn with_last_siginfo(&self, last_siginfo: Option<SigInfo>) -> (state: PtraceState)
        ensures
            state == self.with_last_siginfo(last_siginfo),
    {
        PtraceState {
            last_siginfo,
            ..*self
        }
    }

    pub open spec fn spec_with_event_message(&self, event_message: usize) -> PtraceState {
        PtraceState {
            event_message,
            ..*self
        }
    }

    /// The state with another message.
    #[verifier::when_used_as_spec(spec_with_event_message)]
    pub fn with_event_message(&self, event_message: usize) -> (state: PtraceState)
        ensures
            state == self.with_event_message(event_message),
    {
        PtraceState {
            event_message,
            ..*self
        }
    }

    pub open spec fn spec_with_event_stop_due(&self) -> PtraceState {
        PtraceState {
            pending_event_stop: Some(Signal { nr: Signal::SIGTRAP }),
            ..*self
        }
    }

    /// The state of a task that has an event stop to come.
    #[verifier::when_used_as_spec(spec_with_event_stop_due)]
    pub fn with_event_stop_due(&self) -> (state: PtraceState)
        ensures
            state == self.with_event_stop_due(),
    {
        PtraceState {
            pending_event_stop: Some(Signal { nr: Signal::SIGTRAP }),
            ..*self
        }
    }

    pub open spec fn spec_listened_to(&self) -> PtraceState {
        PtraceState {
            listening: true,
            in_ptrace_stop: false,
            stop_report_pending: false,
            ..*self
        }
    }

    /// The state of a task whose tracer listens for it only.
    #[verifier::when_used_as_spec(spec_listened_to)]
    pub fn listened_to(&self) -> (state: PtraceState)
        ensures
            state == self.listened_to(),
    {
        PtraceState {
            listening: true,
            in_ptrace_stop: false,
            stop_report_pending: false,
            ..*self
        }
    }

}

impl ProcessControlBlock {
    /// The task whose stop was turned into a tracing stop: its code is the signal that
    /// stopped its process.
    pub open spec fn attach_armed(self, stop_signal: Signal) -> ProcessControlBlock {
        self.with_ptrace_state(
            self.ptrace_state.armed(
                stop_signal.nr as usize,
                self.syscall_stack.holds(self.kernel_rsp),
            ),
        ).with_flags(self.flags.with_pending_ptrace_stop(true).with_trapping(false))
    }
}

impl ProcessManagerView {
    /// A task is no longer on its way into a tracing stop, and who waits for that goes
    /// on.
    pub open spec fn trapping_cleared(self, t: TaskId) -> ProcessManagerView {
        if self.task(t).flags.trapping {
            self.with_task(
                t,
                self.task(t).with_flags(self.task(t).flags.with_trapping(false)),
            ).with_action(Action::WakeTrapWaiters(t))
        } else {
            self
        }
    }

    /// Who waits for the children of a task is woken, if there is one.
    pub open spec fn waiters_woken(self, t: Option<TaskId>) -> ProcessManagerView {
        match t {
            Some(t) => self.with_action(Action::WakeAllWaiters(t)),
            None => self,
        }
    }
}

/// A task that is stopped is in a tracing stop from now on, and its tracer looks.
pub open spec fn attach_trapped(pm: ProcessManagerView, t: TaskId) -> ProcessManagerView {
    pm.with_task(t, pm.task(t).attach_armed(pm.sighand(t).stop_signal)).with_action(
        Action::WakeTrapWaiters(t),
    ).waiters_woken(pm.upgrade(pm.task(t).ptracer))
}

/// The signal that stops a task to which a tracer attaches.
pub open spec fn attach_siginfo() -> SigInfo {
    SigInfo {
        signo: Signal { nr: Signal::SIGSTOP },
        errno: 0,
        code: SigCode::Kernel,
        kind: SigType::Kill { pid: RawPid { data: 0 }, uid: 0 },
    }
}

/// Whether `tracer` may attach to `tracee`: it may trace it, and it is neither a kernel
/// thread nor a thread of the same process.
pub open spec fn can_attach(pm: ProcessManagerView, tracee: TaskId, tracer: TaskId) -> bool {
    &&& crate::ptrace::relation::can_link(pm, tracee, tracer)
    &&& !pm.task(tracee).flags.kthread
    &&& pm.task(tracer).tgid != pm.task(tracee).tgid
}

/// How far attaching to a task has come.
#[derive(Debug, PartialEq, Eq)]
pub enum AttachStep {
    /// It is over.
    Done(Result<isize, SystemError>),
    /// The task has to be sent `SIGSTOP`: `ptrace_attach_sent` goes on.
    SendStop(SigInfo),
}

impl ProcessControlBlock {
    /// Marks a task as no longer on its way into a tracing stop, and wakes who waits for
    /// that.
    pub fn ptrace_clear_trapping(pm: &mut ProcessManager, t: TaskId)
        requires
            old(pm)@.has(t),
        ensures
            final(pm)@ == old(pm)@.trapping_cleared(t),
    {
        let flags = pm.task(t).flags;
        if flags.trapping {
            pm.set_flags(t, flags.with_trapping(false));
            pm.act(Action::WakeTrapWaiters(t));
        }
    }

    /// Turns the stop of a task, if it is stopped, into a tracing stop.
    fn ptrace_arm_attach_trap_if_stopped(pm: &mut ProcessManager, t: TaskId) -> (armed: bool)
        requires
            old(pm)@.wf(),
            old(pm)@.has(t),
        ensures
            armed == old(pm)@.task(t).sched_info.state.is_stopped(),
            final(pm)@ == if armed {
                attach_trapped(old(pm)@, t)
            } else {
                old(pm)@
            },
    {
        let p = pm.task(t);
        if !p.sched_info.state.is_stopped() {
            return false;
        }
        let tracer = pm.upgrade(p.ptracer);
        let stop_sig = pm.sighand(t).stop_signal;
        let on_syscall_stack = p.syscall_stack.holds(p.kernel_rsp);
        let q = p.with_ptrace_state(
            p.ptrace_state.armed(stop_sig.nr as usize, on_syscall_stack),
        ).with_flags(p.flags.with_pending_ptrace_stop(true).with_trapping(false));
        pm.set_task(t, q);
        pm.act(Action::WakeTrapWaiters(t));
        if let Some(tracer) = tracer {
            pm.act(Action::WakeAllWaiters(tracer));
        }
        true
    }

    /// Has `tracer` attach to `tracee`. A task that is stopped is in a tracing stop at
    /// once; any other one has to be sent `SIGSTOP`.
    pub fn ptrace_attach(pm: &mut ProcessManager, tracee: TaskId, tracer: TaskId) -> (step:
        AttachStep)
        requires
            old(pm)@.wf(),
            old(pm)@.has(tracee),
            old(pm)@.has(tracer),
        ensures
            ({
                let linked = old(pm)@.linked(tracee, tracer);
                if !can_attach(old(pm)@, tracee, tracer) {
                    &&& step == AttachStep::Done(Err(SystemError::EPERM))
                    &&& final(pm)@ == old(pm)@
                } else if !old(pm)@.task(tracee).alive {
                    &&& step == AttachStep::Done(Err(SystemError::ESRCH))
                    &&& final(pm)@ == crate::ptrace::relation::let_go(linked, tracee)
                } else if old(pm)@.task(tracee).sched_info.state.is_stopped() {
                    &&& step == AttachStep::Done(Ok(0))
                    &&& final(pm)@ == attach_trapped(linked, tracee).with_action(
                        Action::WaitTrappingCleared(tracee),
                    )
                } else {
                    &&& step == AttachStep::SendStop(attach_siginfo())
                    &&& final(pm)@ == linked
                }
            }),
    {
        let p = pm.task(tracee);
        let q = pm.task(tracer);
        if !q.has_permission_to_trace(&p) || p.flags.kthread || q.tgid == p.tgid {
            return AttachStep::Done(Err(SystemError::EPERM));
        }
        match Self::ptrace_link(pm, tracee, tracer) {
            Ok(()) => {},
            Err(e) => {
                return AttachStep::Done(Err(e));
            },
        }
        proof {
            lemma_linked_task(old(pm)@, tracee, tracer);
        }
        if !p.alive {
            let _ = Self::ptrace_unlink(pm, tracee);
            return AttachStep::Done(Err(SystemError::ESRCH));
        }
        if Self::ptrace_arm_attach_trap_if_stopped(pm, tracee) {
            pm.act(Action::WaitTrappingCleared(tracee));
            AttachStep::Done(Ok(0))
        } else {
            AttachStep::SendStop(
                SigInfo {
                    signo: Signal { nr: Signal::SIGSTOP },
                    errno: 0,
                    code: SigCode::Kernel,
                    kind: SigType::Kill { pid: RawPid { data: 0 }, uid: 0 },
                },
            )
        }
    }

    /// The end of attaching once `SIGSTOP` was sent: if that failed the tracing ends.
    pub fn ptrace_attach_sent(
        pm: &mut ProcessManager,
        tracee: TaskId,
        sent: Result<(), SystemError>,
    ) -> (res: Result<isize, SystemError>)
        requires
            old(pm)@.wf(),
            old(pm)@.has(tracee),
        ensures
            match sent {
                Ok(()) => res == Ok::<_, SystemError>(0isize) && final(pm)@ == old(pm)@,
                Err(e) => res == Err::<isize, _>(e) && final(pm)@
                    == crate::ptrace::relation::let_go(old(pm)@, tracee),
            },
    {
        match sent {
            Ok(()) => Ok(0),
            Err(e) => {
                let _ = Self::ptrace_unlink(pm, tracee);
                Err(e)
            },
        }
    }

    /// Has `tracer` seize `tracee`, which goes on running.
    pub fn ptrace_seize(
        pm: &mut ProcessManager,
        tracee: TaskId,
        tracer: TaskId,
        options: PtraceOptions,
    ) -> (res: Result<isize, SystemError>)
        requires
            old(pm)@.wf(),
            old(pm)@.has(tracee),
            old(pm)@.has(tracer),
        ensures
            if can_attach(old(pm)@, tracee, tracer) {
                let linked = old(pm)@.linked(tracee, tracer);
                &&& res == Ok::<_, SystemError>(0isize)
                &&& final(pm)@ == linked.with_task(
                    tracee,
                    linked.task(tracee).seized(options),
                )
            } else {
                &&& res == Err::<isize, _>(SystemError::EPERM)
                &&& final(pm)@ == old(pm)@
            },
    {
        let p = pm.task(tracee);
        let q = pm.task(tracer);
        if !q.has_permission_to_trace(&p) || p.flags.kthread || q.tgid == p.tgid {
            return Err(SystemError::EPERM);
        }
        match Self::ptrace_link(pm, tracee, tracer) {
            Ok(()) => {},
            Err(e) => {
                return Err(e);
            },
        }
        let seized = pm.task(tracee).seized(options);
        pm.set_task(tracee, seized);
        Ok(0)
    }

    pub open spec fn spec_seized(&self, options: PtraceOptions) -> ProcessControlBlock {
        self.with_flags(self.flags.with_pt_seized(true)).with_ptrace_state(
            self.ptrace_state.with_options(options),
        )
    }

    /// The task as its tracer has seized it.
    #[verifier::when_used_as_spec(spec_seized)]
    pub fn seized(&self, options: PtraceOptions) -> (pcb: ProcessControlBlock)
        ensures
            pcb == self.seized(options),
    {
        self.with_flags(self.flags.with_pt_seized(true)).with_ptrace_state(
            self.ptrace_state.with_options(options),
        )
    }
}

/// A task that was linked to a tracer is the same otherwise.
proof fn lemma_linked_task(pm: ProcessManagerView, tracee: TaskId, tracer: TaskId)
    requires
        pm.wf(),
        pm.has(tracee),
        pm.has(tracer),
    ensures
        pm.linked(tracee, tracer).wf(),
        pm.linked(tracee, tracer).task(tracee) == pm.task(tracee).traced_by(tracer),
        pm.task(tracee).traced_by(tracer).sched_info == pm.task(tracee).sched_info,
        pm.task(tracee).traced_by(tracer).alive == pm.task(tracee).alive,
{
}

/// The signal with which a task goes on: none, or the one that was given. `INVALID` is
/// none that can be given.
pub open spec fn resume_signal(signal: Option<Signal>) -> Result<Signal, SystemError> {
    match signal {
        None => Ok(Signal { nr: Signal::INVALID }),
        Some(s) => if s.is(Signal::INVALID) {
            Err(SystemError::EIO)
        } else {
            Ok(s)
        },
    }
}

fn checked_resume_signal(signal: Option<Signal>) -> (res: Result<Signal, SystemError>)
    ensures
        res == resume_signal(signal),
{
    match signal {
        None => Ok(Signal { nr: Signal::INVALID }),
        Some(s) => if s.is(Signal::INVALID) {
            Err(SystemError::EIO)
        } else {
            Ok(s)
        },
    }
}

/// Whether a request can be made of a task that is traced, as it stands.
pub open spec fn answers(p: ProcessControlBlock, request: PtraceRequest) -> bool {
    ||| request == PtraceRequest::Kill
    ||| request == PtraceRequest::Interrupt
    ||| !p.ptrace_state.listening && p.ptrace_state.in_ptrace_stop
        && p.sched_info.state.is_stopped()
}

/// Whether a request is one that lets a task run.
pub open spec fn is_resume(request: PtraceRequest) -> bool {
    ||| request == PtraceRequest::Singlestep
    ||| request == PtraceRequest::Syscall
    ||| request == PtraceRequest::Sysemu
    ||| request == PtraceRequest::SysemuSinglestep
    ||| request == PtraceRequest::Cont
}

impl ProcessControlBlock {
    pub open spec fn spec_detaching(&self, signal: Signal) -> ProcessControlBlock {
        self.with_ptrace_state(self.ptrace_state.detaching(signal)).with_flags(
            self.flags.with_ptrace_event_stop(false),
        )
    }

    /// The task as it is about to be detached.
    #[verifier::when_used_as_spec(spec_detaching)]
    pub fn detaching(&self, signal: Signal) -> (pcb: ProcessControlBlock)
        ensures
            pcb == self.detaching(signal),
    {
        self.with_ptrace_state(self.ptrace_state.detaching(signal)).with_flags(
            self.flags.with_ptrace_event_stop(false),
        )
    }

    pub open spec fn spec_single_stepping(&self) -> ProcessControlBlock {
        let frame = self.stop_frame();
        self.with_stop_frame(
            TrapFrame { rflags: frame.rflags | X86_EFLAGS_TF, ..frame },
        ).with_ptrace_state(self.ptrace_state.with_forced_trap_flag(true))
    }

    /// The task with the trap flag set for its tracer.
    #[verifier::when_used_as_spec(spec_single_stepping)]
    pub fn single_stepping(&self) -> (pcb: ProcessControlBlock)
        ensures
            pcb == self.single_stepping(),
    {
        let frame = self.stop_frame();
        self.with_stop_frame(
            TrapFrame { rflags: frame.rflags | X86_EFLAGS_TF, ..frame },
        ).with_ptrace_state(self.ptrace_state.with_forced_trap_flag(true))
    }

    pub open spec fn spec_with_trace_work(
        &self,
        syscall: bool,
        singlestep: bool,
        sysemu: bool,
    ) -> ProcessControlBlock {
        self.with_flags(
            self.flags.with_trace_syscall(syscall).with_trace_singlestep(
                singlestep,
            ).with_trace_sysemu(sysemu),
        )
    }

    /// The task with other work for its tracer.
    #[verifier::when_used_as_spec(spec_with_trace_work)]
    pub fn with_trace_work(
        &self,
        syscall: bool,
        singlestep: bool,
        sysemu: bool,
    ) -> (pcb: ProcessControlBlock)
        ensures
            pcb == self.with_trace_work(syscall, singlestep, sysemu),
    {
        self.with_flags(
            self.flags.with_trace_syscall(syscall).with_trace_singlestep(
                singlestep,
            ).with_trace_sysemu(sysemu),
        )
    }

    pub open spec fn spec_set_up_for(&self, request: PtraceRequest) -> ProcessControlBlock {
        let p = self.with_trace_work(
            request == PtraceRequest::Syscall,
            request == PtraceRequest::Singlestep || request == PtraceRequest::SysemuSinglestep,
            request == PtraceRequest::Sysemu || request == PtraceRequest::SysemuSinglestep,
        );
        match request {
            PtraceRequest::Singlestep => p.single_stepping(),
            PtraceRequest::SysemuSinglestep => p,
            _ => p.single_step_disabled(),
        }
    }

    /// The task as it runs on for a request of its tracer: to the next instruction, to
    /// the next system call, to the next system call that is then not made, or just on.
    #[verifier::when_used_as_spec(spec_set_up_for)]
    pub fn set_up_for(&self, request: PtraceRequest) -> (pcb: ProcessControlBlock)
        ensures
            pcb == self.set_up_for(request),
    {
        let p = self.with_trace_work(
            request == PtraceRequest::Syscall,
            request == PtraceRequest::Singlestep || request == PtraceRequest::SysemuSinglestep,
            request == PtraceRequest::Sysemu || request == PtraceRequest::SysemuSinglestep,
        );
        match request {
            PtraceRequest::Singlestep => p.single_stepping(),
            PtraceRequest::SysemuSinglestep => p,
            _ => p.single_step_disabled(),
        }
    }

    pub open spec fn spec_resumed(
        &self,
        request: PtraceRequest,
        signal: Signal,
    ) -> ProcessControlBlock {
        let p = self.set_up_for(request);
        p.with_ptrace_state(p.ptrace_state.resuming(signal))
    }

    /// The task as its tracer lets it run.
    #[verifier::when_used_as_spec(spec_resumed)]
    pub fn resumed(&self, request: PtraceRequest, signal: Signal) -> (pcb: ProcessControlBlock)
        ensures
            pcb == self.resumed(request, signal),
    {
        let p = self.set_up_for(request);
        p.with_ptrace_state(p.ptrace_state.resuming(signal))
    }

    pub open spec fn spec_event_stop_due(&self) -> ProcessControlBlock {
        self.with_ptrace_state(self.ptrace_state.with_event_stop_due()).with_flags(
            self.flags.with_pending_ptrace_stop(true),
        )
    }

    /// The task with an event stop to come.
    #[verifier::when_used_as_spec(spec_event_stop_due)]
    pub fn event_stop_due(&self) -> (pcb: ProcessControlBlock)
        ensures
            pcb == self.event_stop_due(),
    {
        self.with_ptrace_state(self.ptrace_state.with_event_stop_due()).with_flags(
            self.flags.with_pending_ptrace_stop(true),
        )
    }

    pub open spec fn spec_needs_retrap(&self) -> bool {
        self.ptrace_state.listening || !self.ptrace_state.in_ptrace_stop
    }

    /// Whether the task, if it is stopped, has to be woken to stop anew: its tracer only
    /// listens, or it is not in a tracing stop.
    #[verifier::when_used_as_spec(spec_needs_retrap)]
    pub fn needs_retrap(&self) -> (b: bool)
        ensures
            b == self.needs_retrap(),
    {
        self.ptrace_state.listening || !self.ptrace_state.in_ptrace_stop
    }

    /// Ends the tracing of a task by the running one; the task goes on with a signal, if
    /// one is given.
    pub fn ptrace_detach(pm: &mut ProcessManager, tracee: TaskId, signal: Option<Signal>) -> (res:
        Result<isize, SystemError>)
        requires
            old(pm)@.wf(),
            old(pm)@.has(tracee),
        ensures
            if !crate::ptrace::relation::is_tracer_of(old(pm)@, tracee, old(pm)@.current) {
                res == Err::<isize, _>(SystemError::EPERM) && final(pm)@ == old(pm)@
            } else {
                match resume_signal(signal) {
                    Err(e) => res == Err::<isize, _>(e) && final(pm)@ == old(pm)@,
                    Ok(sig) => res == Ok::<_, SystemError>(0isize) && final(pm)@
                        == crate::ptrace::relation::let_go(
                        old(pm)@.with_task(tracee, old(pm)@.task(tracee).detaching(sig)),
                        tracee,
                    ),
                }
            },
    {
        let current = pm.current;
        if !Self::is_traced_by(pm, tracee, current) {
            return Err(SystemError::EPERM);
        }
        let data_signal = match checked_resume_signal(signal) {
            Ok(s) => s,
            Err(e) => {
                return Err(e);
            },
        };
        let p = pm.task(tracee).detaching(data_signal);
        pm.set_task(tracee, p);
        let _ = Self::ptrace_unlink(pm, tracee);
        Ok(0)
    }

    /// Whether the running task can make a request of a task: it has to be its tracer,
    /// and the task has to be in a tracing stop unless it is killed or interrupted.
    pub fn ptrace_check_attach(pm: &ProcessManager, tracee: TaskId, request: PtraceRequest) -> (res:
        Result<(), SystemError>)
        requires
            pm@.wf(),
            pm@.has(tracee),
        ensures
            match res {
                Ok(()) => crate::ptrace::relation::is_tracer_of(pm@, tracee, pm@.current)
                    && answers(pm@.task(tracee), request),
                Err(e) => e == SystemError::ESRCH && !(crate::ptrace::relation::is_tracer_of(
                    pm@,
                    tracee,
                    pm@.current,
                ) && answers(pm@.task(tracee), request)),
            },
    {
        if !Self::is_traced_by(pm, tracee, pm.current) {
            return Err(SystemError::ESRCH);
        }
        match request {
            PtraceRequest::Kill | PtraceRequest::Interrupt => {
                return Ok(());
            },
            _ => {},
        }
        let p = pm.task(tracee);
        if p.ptrace_state.listening {
            return Err(SystemError::ESRCH);
        }
        if !(p.ptrace_state.in_ptrace_stop && p.sched_info.state.is_stopped()) {
            return Err(SystemError::ESRCH);
        }
        Ok(())
    }

    /// Sets what the tracer wants to be told of. System call filters cannot be
    /// suspended.
    pub fn set_ptrace_options(pm: &mut ProcessManager, tracee: TaskId, options: PtraceOptions) -> (
        res: Result<(), SystemError>)
        requires
            old(pm)@.has(tracee),
        ensures
            if options.contains(PtraceOptions::SUSPEND_SECCOMP) {
                res == Err::<(), _>(SystemError::EPERM) && final(pm)@ == old(pm)@
            } else {
                res == Ok::<_, SystemError>(()) && final(pm)@ == old(pm)@.with_task(
                    tracee,
                    old(pm)@.task(tracee).with_ptrace_state(
                        old(pm)@.task(tracee).ptrace_state.with_options(options),
                    ),
                )
            },
    {
        if options.contains(PtraceOptions::SUSPEND_SECCOMP) {
            return Err(SystemError::EPERM);
        }
        let p = pm.task(tracee);
        pm.set_task(tracee, p.with_ptrace_state(p.ptrace_state.with_options(options)));
        Ok(())
    }

    /// The message of the last event.
    pub fn ptrace_get_event_message(&self) -> (message: usize)
        ensures
            message == self.ptrace_state.event_message,
    {
        self.ptrace_state.event_message
    }

    /// The signal of the current stop, where there is one.
    pub fn ptrace_get_siginfo(&self) -> (res: Result<SigInfo, SystemError>)
        ensures
            match self.ptrace_state.last_siginfo {
                Some(info) => res == Ok::<_, SystemError>(info),
                None => res == Err::<SigInfo, _>(SystemError::EINVAL),
            },
    {
        match self.ptrace_state.last_siginfo {
            Some(info) => Ok(info),
            None => Err(SystemError::EINVAL),
        }
    }

    /// Replaces the signal of the current stop, where there is one.
    pub fn ptrace_set_siginfo(pm: &mut ProcessManager, tracee: TaskId, info: SigInfo) -> (res:
        Result<(), SystemError>)
        requires
            old(pm)@.has(tracee),
        ensures
            match old(pm)@.task(tracee).ptrace_state.last_siginfo {
                Some(_) => res == Ok::<_, SystemError>(()) && final(pm)@ == old(pm)@.with_task(
                    tracee,
                    old(pm)@.task(tracee).with_ptrace_state(
                        old(pm)@.task(tracee).ptrace_state.with_last_siginfo(Some(info)),
                    ),
                ),
                None => res == Err::<(), _>(SystemError::EINVAL) && final(pm)@ == old(pm)@,
            },
    {
        let p = pm.task(tracee);
        if p.ptrace_state.last_siginfo.is_none() {
            return Err(SystemError::EINVAL);
        }
        pm.set_task(tracee, p.with_ptrace_state(p.ptrace_state.with_last_siginfo(Some(info))));
        Ok(())
    }

    /// The signals that the task does not take.
    pub fn ptrace_get_sigmask(&self) -> (set: SigSet)
        ensures
            set == self.sig_blocked,
    {
        self.sig_blocked
    }

    /// Sets the signals that the task does not take. `SIGKILL` and `SIGSTOP` it takes in
    /// any case.
    pub fn ptrace_set_sigmask(pm: &mut ProcessManager, tracee: TaskId, new_set: SigSet)
        requires
            old(pm)@.has(tracee),
        ensures
            final(pm)@ == old(pm)@.with_task(
                tracee,
                (ProcessControlBlock {
                    sig_blocked: SigSet { bits: new_set.bits & !0x4_0100u64 },
                    ..old(pm)@.task(tracee)
                }),
            ),
            !final(pm)@.task(tracee).sig_blocked.contains(Signal { nr: Signal::SIGKILL }),
            !final(pm)@.task(tracee).sig_blocked.contains(Signal { nr: Signal::SIGSTOP }),
            forall|s: Signal|
                s.nr != Signal::SIGKILL && s.nr != Signal::SIGSTOP
                    ==> (#[trigger] final(pm)@.task(tracee).sig_blocked.contains(s)
                    <==> new_set.contains(s)),
    {
        let mut p = pm.task(tracee);
        p.sig_blocked = new_set.without_unblockable();
        pm.set_task(tracee, p);
    }

    pub open spec fn spec_ptrace_event_enabled(&self, event: PtraceEvent) -> bool {
        match PtraceOptions::for_event(event) {
            Some(flag) => self.ptrace_state.options.contains(flag),
            None => false,
        }
    }

    /// Whether the tracer wants to be told of an event.
    #[verifier::when_used_as_spec(spec_ptrace_event_enabled)]
    pub fn ptrace_event_enabled(&self, event: PtraceEvent) -> (b: bool)
        ensures
            b == self.ptrace_event_enabled(event),
    {
        let flag: usize = match event {
            PtraceEvent::Fork => PtraceOptions::TRACEFORK,
            PtraceEvent::VFork => PtraceOptions::TRACEVFORK,
            PtraceEvent::Clone => PtraceOptions::TRACECLONE,
            PtraceEvent::Exec => PtraceOptions::TRACEEXEC,
            PtraceEvent::VForkDone => PtraceOptions::TRACEVFORKDONE,
            PtraceEvent::Exit => PtraceOptions::TRACEEXIT,
            PtraceEvent::Seccomp => PtraceOptions::TRACESECCOMP,
            PtraceEvent::Stop => {
                return false;
            },
        };
        self.ptrace_state.options.contains(flag)
    }

    /// Lets a seized task that `SIGCONT` reaches stop anew: it has an event stop to come,
    /// and is woken for that unless it is in an ordinary tracing stop.
    pub fn ptrace_trap_notify(pm: &mut ProcessManager, tracee: TaskId)
        requires
            old(pm)@.has(tracee),
        ensures
            final(pm)@ == ({
                let p = old(pm)@.task(tracee);
                let due = old(pm)@.with_task(tracee, p.event_stop_due());
                if !p.flags.pt_seized {
                    old(pm)@
                } else if p.needs_retrap() && p.alive {
                    due.with_action(Action::WakeupStop(tracee))
                } else {
                    due
                }
            }),
    {
        let p = pm.task(tracee);
        if !p.flags.pt_seized {
            return;
        }
        let do_wake = p.needs_retrap();
        pm.set_task(tracee, p.event_stop_due());
        if do_wake && p.alive {
            pm.act(Action::WakeupStop(tracee));
        }
    }

    /// Makes a seized task stop: it has an event stop to come, and is woken or made to
    /// enter the kernel for that.
    pub fn ptrace_interrupt(pm: &mut ProcessManager, tracee: TaskId) -> (res: Result<
        (),
        SystemError,
    >)
        requires
            old(pm)@.has(tracee),
        ensures
            ({
                let p = old(pm)@.task(tracee);
                let due = old(pm)@.with_task(tracee, p.event_stop_due());
                if !p.flags.pt_seized {
                    res == Err::<(), _>(SystemError::EIO) && final(pm)@ == old(pm)@
                } else {
                    &&& res == Ok::<_, SystemError>(())
                    &&& final(pm)@ == if !p.alive {
                        due
                    } else if p.sched_info.state.is_stopped() && p.needs_retrap() {
                        due.with_action(Action::WakeupStop(tracee))
                    } else {
                        due.with_action(Action::Wakeup(tracee)).with_action(
                            Action::Kick(tracee),
                        )
                    }
                }
            }),
    {
        let p = pm.task(tracee);
        if !p.flags.pt_seized {
            return Err(SystemError::EIO);
        }
        let wake_for_retrap = p.needs_retrap();
        pm.set_task(tracee, p.event_stop_due());
        if p.alive {
            if p.sched_info.state.is_stopped() && wake_for_retrap {
                pm.act(Action::WakeupStop(tracee));
            } else {
                pm.act(Action::Wakeup(tracee));
                pm.act(Action::Kick(tracee));
            }
        }
        Ok(())
    }

    /// Lets a task run on for a request of its tracer, with a signal if one is given.
    pub fn ptrace_resume(
        pm: &mut ProcessManager,
        tracee: TaskId,
        request: PtraceRequest,
        signal: Option<Signal>,
    ) -> (res: Result<isize, SystemError>)
        requires
            old(pm)@.has(tracee),
        ensures
            match resume_signal(signal) {
                Err(e) => res == Err::<isize, _>(e) && final(pm)@ == old(pm)@,
                Ok(sig) => if !is_resume(request) {
                    res == Err::<isize, _>(SystemError::EINVAL) && final(pm)@ == old(pm)@
                } else {
                    let p = old(pm)@.task(tracee);
                    let on = old(pm)@.with_task(tracee, p.resumed(request, sig));
                    &&& res == Ok::<_, SystemError>(0isize)
                    &&& final(pm)@ == if p.sched_info.state.is_stopped() && p.alive {
                        on.with_action(Action::WakeupStop(tracee))
                    } else {
                        on
                    }
                },
            },
    {
        let resume_signal = match checked_resume_signal(signal) {
            Ok(s) => s,
            Err(e) => {
                return Err(e);
            },
        };
        match request {
            PtraceRequest::Singlestep
            | PtraceRequest::Syscall
            | PtraceRequest::Sysemu
            | PtraceRequest::SysemuSinglestep
            | PtraceRequest::Cont => {},
            _ => {
                return Err(SystemError::EINVAL);
            },
        }
        let p = pm.task(tracee);
        let was_in_stop = p.sched_info.state.is_stopped();
        pm.set_task(tracee, p.resumed(request, resume_signal));
        if was_in_stop && p.alive {
            pm.act(Action::WakeupStop(tracee));
        }
        Ok(0)
    }
}

/// Whether the signal of a stop is that of an event stop.
pub open spec fn is_event_stop(info: Option<SigInfo>) -> bool {
    match info {
        Some(i) => i.code.as_i32() >> 8 == 128,
        None => false,
    }
}

/// The signal in the code of a stop.
pub open spec fn stop_signal_of(exit_code: usize) -> Signal {
    Signal::from_i32((exit_code as i32) & 0x7f)
}

impl ProcessControlBlock {
    /// Whether the tracer can go over to listening: the task was seized and is in an event
    /// stop.
    pub open spec fn can_be_listened_to(self) -> bool {
        &&& self.flags.pt_seized
        &&& self.ptrace_state.in_ptrace_stop
        &&& is_event_stop(self.ptrace_state.last_siginfo)
    }

    /// Leaves a task in its event stop, but out of sight: it can neither be waited for nor
    /// steered until it stops anew. If a stop signal was the reason, its process is stopped
    /// as a whole.
    pub fn ptrace_listen(pm: &mut ProcessManager, tracee: TaskId) -> (res: Result<(), SystemError>)
        requires
            old(pm)@.wf(),
            old(pm)@.has(tracee),
        ensures
            ({
                let p = old(pm)@.task(tracee);
                let listening = old(pm)@.with_task(
                    tracee,
                    p.with_ptrace_state(p.ptrace_state.listened_to()),
                );
                let signal = stop_signal_of(p.ptrace_state.exit_code);
                if !p.can_be_listened_to() {
                    res == Err::<(), _>(SystemError::EIO) && final(pm)@ == old(pm)@
                } else {
                    &&& res == Ok::<_, SystemError>(())
                    &&& final(pm)@ == if signal.is_kernel_stop() {
                        listening.with_sighand(
                            tracee,
                            old(pm)@.sighand(tracee).stopped_by(signal),
                        )
                    } else {
                        listening
                    }
                }
            }),
    {
        let p = pm.task(tracee);
        if !p.flags.pt_seized {
            return Err(SystemError::EIO);
        }
        let is_event_stop = match p.ptrace_state.last_siginfo {
            Some(i) => i.code.as_i32() >> 8 == 128,
            None => false,
        };
        if !p.ptrace_state.in_ptrace_stop || !is_event_stop {
            return Err(SystemError::EIO);
        }
        let code: i32 = #[verifier::truncate]
        (p.ptrace_state.exit_code as i32);
        let stop_signal = Signal::from_i32(code & 0x7f);
        let sighand = pm.sighand(tracee);
        pm.set_task(tracee, p.with_ptrace_state(p.ptrace_state.listened_to()));
        if !stop_signal.is(Signal::INVALID) && stop_signal.is_kernel_stop() {
            pm.set_sighand(tracee, sighand.stopped_by(stop_signal));
        }
        Ok(())
    }
}

/// A task that its tracer only listens for answers no request but to be killed or
/// interrupted, and is not reported to who waits for it.
pub proof fn law_listened_to_task_is_out_of_sight(p: ProcessControlBlock, request: PtraceRequest)
    requires
        request != PtraceRequest::Kill,
        request != PtraceRequest::Interrupt,
    ensures
        !answers(p.with_ptrace_state(p.ptrace_state.listened_to()), request),
        p.ptrace_state.listened_to().stop_report() is None,
{
}

/// A task that its tracer let run is in no tracing stop any more, answers no request of a
/// stopped task, and is not reported to who waits for it.
pub proof fn law_resumed_task_has_left_its_stop(
    p: ProcessControlBlock,
    resume: PtraceRequest,
    signal: Signal,
    request: PtraceRequest,
)
    requires
        request != PtraceRequest::Kill,
        request != PtraceRequest::Interrupt,
    ensures
        !p.resumed(resume, signal).is_in_tracing_stop(),
        !answers(p.resumed(resume, signal), request),
        p.resumed(resume, signal).ptrace_state.stop_report() is None,
        p.resumed(resume, signal).ptrace_state.injected_signal == signal,
{
}

/// Of the three kinds of work for a tracer a task that runs on has exactly what the request
/// calls for.
pub proof fn law_resume_sets_the_work(p: ProcessControlBlock, resume: PtraceRequest, signal: Signal)
    ensures
        p.resumed(resume, signal).flags.trace_syscall == (resume == PtraceRequest::Syscall),
        p.resumed(resume, signal).flags.trace_singlestep == (resume == PtraceRequest::Singlestep
            || resume == PtraceRequest::SysemuSinglestep),
        p.resumed(resume, signal).flags.trace_sysemu == (resume == PtraceRequest::Sysemu || resume
            == PtraceRequest::SysemuSinglestep),
{
}

/// A task that steps for its tracer has the trap flag, and when that ends it has lost it;
/// its own registers are the same otherwise.
pub proof fn law_single_step_sets_and_clears_the_trap_flag(p: ProcessControlBlock)
    ensures
        p.single_stepping().stop_frame().rflags & X86_EFLAGS_TF != 0,
        p.single_stepping().ptrace_state.forced_trap_flag,
        ({
            let off = p.single_stepping().single_step_disabled();
            &&& off.stop_frame().rflags & X86_EFLAGS_TF == 0
            &&& !off.ptrace_state.forced_trap_flag
            &&& off.stop_frame() == (TrapFrame {
                rflags: p.stop_frame().rflags & !X86_EFLAGS_TF,
                ..p.stop_frame()
            })
        }),
{
    let f = p.stop_frame().rflags;
    assert((f | 0x100u64) & 0x100u64 != 0 && ((f | 0x100u64) & !0x100u64) & 0x100u64 == 0 && (f
        | 0x100u64) & !0x100u64 == f & !0x100u64) by (bit_vector);
}

/// A task that was interrupted has an event stop to come.
pub proof fn law_interrupted_task_has_a_stop_to_come(p: ProcessControlBlock)
    ensures
        p.event_stop_due().flags.pending_ptrace_stop,
        p.event_stop_due().ptrace_state.pending_event_stop is Some,
{
}

/// A task that was stopped when its tracer attached to it is in a tracing stop at once: it
/// answers every request, who waits for it is told the signal that stopped its process, and there
/// is no signal of the stop to read.
pub proof fn law_attached_task_that_was_stopped_answers(
    pm: ProcessManagerView,
    tracee: TaskId,
    request: PtraceRequest,
)
    requires
        pm.has(tracee),
        pm.task(tracee).sched_info.state.is_stopped(),
    ensures
        ({
            let p = attach_trapped(pm, tracee).task(tracee);
            &&& answers(p, request)
            &&& p.ptrace_state.stop_report() == Some(pm.sighand(tracee).stop_signal.nr as i32)
            &&& p.ptrace_state.last_siginfo is None
            &&& !p.flags.trapping
        }),
{
    let nr = pm.sighand(tracee).stop_signal.nr;
    assert((nr as usize) as i32 == nr as i32) by (bit_vector);
}

} // verus!
