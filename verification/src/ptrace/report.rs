//! What a task stops for: signals, events and system calls.
use crate::error::SystemError;
use crate::libs::spinlock::IrqFlagsGuard;
use crate::process::action::Action;
use crate::process::manager::{ProcessManager, ProcessManagerView};
use crate::process::pcb::{ProcessControlBlock, TaskId};
use crate::process::signal::{PidType, RawPid, SigChildCode, SigCode, SigInfo, SigType, Signal};
use crate::ptrace::relation::ptracer_of;
use crate::ptrace::state::PtraceState;
use crate::ptrace::stop::StopStep;
use crate::ptrace::types::{
    PtraceEvent, PtraceOptions, PtraceRequest, PTRACE_EVENTMSG_SYSCALL_ENTRY,
    PTRACE_EVENTMSG_SYSCALL_EXIT, TRAP_BRKPT,
};
use vstd::prelude::*;

verus! {

/// The code of a stop for an event, with the signal that goes with it.
pub open spec fn event_code(event: PtraceEvent, signal: Signal) -> usize {
    ((event.number() as usize) << 8usize) | (signal.nr as usize)
}

/// Whether the code of a stop tells of nothing but `SIGTRAP`, with an event or the mark of a
/// system call.
pub open spec fn is_trap_code(exit_code: usize) -> bool {
    exit_code & (0x7fusize | !0xffffusize) == Signal::SIGTRAP as usize
}

/// The signal that a stop for an event tells of.
pub open spec fn trap_siginfo(pid: RawPid, si_code: i32) -> SigInfo {
    SigInfo {
        signo: Signal { nr: Signal::SIGTRAP },
        errno: 0,
        code: SigCode::Raw(si_code),
        kind: SigType::Kill { pid, uid: 0 },
    }
}

/// The signal that an event stop of a seized task tells of.
pub open spec fn event_stop_siginfo(signal: Signal) -> SigInfo {
    SigInfo {
        signo: signal,
        errno: 0,
        code: SigCode::Raw(event_code(PtraceEvent::Stop, signal) as i32),
        kind: SigType::Kill { pid: RawPid { data: 0 }, uid: 0 },
    }
}

/// The signal that a tracer put in the place of another one.
pub open spec fn replaced_siginfo(
    signal: Signal,
    sender_vpid: Option<usize>,
    sender_uid: Option<u32>,
) -> SigInfo {
    SigInfo {
        signo: signal,
        errno: 0,
        code: SigCode::User,
        kind: SigType::Kill {
            pid: RawPid {
                data: match sender_vpid {
                    Some(pid) => pid,
                    None => 0,
                },
            },
            uid: match sender_uid {
                Some(uid) => uid,
                None => u32::MAX,
            },
        },
    }
}

/// The running task sends itself the signal that it goes on with after a stop, if there is
/// one.
pub open spec fn reinjected(pm: ProcessManagerView, signr: usize) -> ProcessManagerView {
    let signal = Signal::from_i32(signr as i32);
    if signr == 0 || signal.is(Signal::INVALID) {
        pm
    } else {
        pm.with_action(
            Action::SendSignal { signal, info: None, to: pm.current, scope: PidType::PID },
        )
    }
}

/// The running task stops to tell its tracer of something, and if it does not come to stand
/// still it sends itself the signal that it goes on with.
pub open spec fn notified(
    pm: ProcessManagerView,
    exit_code: usize,
    si_code: i32,
    rsp: usize,
) -> ProcessManagerView {
    let begun = crate::ptrace::stop::stop_begun(
        pm,
        pm.current,
        exit_code,
        rsp,
        Some(trap_siginfo(pm.task(pm.current).raw_pid, si_code)),
    );
    match crate::ptrace::stop::stop_step(pm, pm.current, exit_code, SigChildCode::Trapped) {
        StopStep::Done(signr) => reinjected(begun, signr),
        StopStep::Stopped { .. } => begun,
    }
}

/// The task has a message for its tracer.
pub open spec fn with_message(
    pm: ProcessManagerView,
    t: TaskId,
    message: usize,
) -> ProcessManagerView {
    pm.with_task(
        t,
        pm.task(t).with_ptrace_state(pm.task(t).ptrace_state.with_event_message(message)),
    )
}

/// What a signal that has come to a task is made of after the stop for it.
#[derive(Debug, PartialEq, Eq)]
pub enum SignalStep {
    /// The signal is acted on at once.
    Deliver(Signal),
    /// The task stops for its tracer first; `ptrace_signal_delivery` goes on with the number
    /// with which the stop ends.
    Stop(StopStep),
}

/// The signal that a task acts on after a stop, unless it has to wait, for the number with
/// which the stop ended.
pub open spec fn injected_signal(signr: usize) -> Option<Signal> {
    let signal = Signal::from_i32(signr as i32);
    if signr == 0 || signal.is(Signal::INVALID) {
        None
    } else {
        Some(signal)
    }
}

/// What is told of a signal after the stop for it: if the tracer put another signal in its
/// place, that it comes from the tracer.
pub open spec fn delivered_info(
    signal: Signal,
    info: Option<SigInfo>,
    sender_vpid: Option<usize>,
    sender_uid: Option<u32>,
) -> Option<SigInfo> {
    match info {
        Some(i) => if i.signo != signal {
            Some(replaced_siginfo(signal, sender_vpid, sender_uid))
        } else {
            info
        },
        None => None,
    }
}

/// Has a task stop for its tracer before it acts on the signal `original`. For `SIGKILL` no
/// task stops.
pub fn ptrace_signal(
    pm: &mut ProcessManager,
    t: TaskId,
    original: Signal,
    info: Option<SigInfo>,
) -> (step: SignalStep)
    requires
        old(pm)@.wf(),
        old(pm)@.has(t),
    ensures
        if original.is(Signal::SIGKILL) {
            step == SignalStep::Deliver(original) && final(pm)@ == old(pm)@
        } else {
            &&& step == SignalStep::Stop(
                crate::ptrace::stop::stop_step(
                    old(pm)@,
                    t,
                    original.nr as usize,
                    SigChildCode::Trapped,
                ),
            )
            &&& exists|rsp: usize|
                final(pm)@ == #[trigger] crate::ptrace::stop::stop_begun(
                    old(pm)@,
                    t,
                    original.nr as usize,
                    rsp,
                    info,
                )
        },
        final(pm)@.wf(),
{
    if original.is(Signal::SIGKILL) {
        return SignalStep::Deliver(original);
    }
    SignalStep::Stop(
        ProcessControlBlock::ptrace_stop(
            pm,
            t,
            original.nr as usize,
            SigChildCode::Trapped,
            info,
        ),
    )
}

/// Who a signal comes from that a tracer put in the place of another one: the tracer, or
/// when the task is not traced any more its parent.
pub fn signal_sender(pm: &ProcessManager, t: TaskId) -> (sender: Option<TaskId>)
    requires
        pm@.has(t),
    ensures
        sender == match pm@.upgrade(pm@.task(t).ptracer) {
            Some(tracer) => Some(tracer),
            None => pm@.upgrade(pm@.task(t).real_parent),
        },
{
    match ptracer_of(pm, t) {
        Some(tracer) => Some(tracer),
        None => pm.upgrade(pm.task(t).real_parent),
    }
}

/// Goes on after the stop for a signal, with the number with which the stop ended: gives the
/// signal that the task acts on, or nothing if its tracer took it away. A signal that the task
/// does not take now, or that comes when the task is being killed, is sent anew.
/// `sender_vpid` and `sender_uid` are the number and the user of `signal_sender` as the task
/// sees them.
pub fn ptrace_signal_delivery(
    pm: &mut ProcessManager,
    t: TaskId,
    signr: usize,
    info: &mut Option<SigInfo>,
    sender_vpid: Option<usize>,
    sender_uid: Option<u32>,
) -> (signal: Option<Signal>)
    requires
        old(pm)@.has(t),
    ensures
        match injected_signal(signr) {
            None => signal is None && final(pm)@ == old(pm)@ && *final(info) == *old(info),
            Some(injected) => {
                let p = old(pm)@.task(t);
                let told = delivered_info(injected, *old(info), sender_vpid, sender_uid);
                &&& *final(info) == told
                &&& if p.sig_blocked.contains(injected) || p.fatal_signal_pending() {
                    &&& signal is None
                    &&& final(pm)@ == old(pm)@.with_action(
                        Action::SendSignal {
                            signal: injected,
                            info: told,
                            to: t,
                            scope: PidType::PID,
                        },
                    )
                } else {
                    signal == Some(injected) && final(pm)@ == old(pm)@
                }
            },
        },
{
    if signr == 0 {
        return None;
    }
    let injected = Signal::from_i32(
        #[verifier::truncate]
        (signr as i32),
    );
    if injected.is(Signal::INVALID) {
        return None;
    }
    if let Some(i) = *info {
        if i.signo.nr != injected.nr {
            let pid: usize = match sender_vpid {
                Some(pid) => pid,
                None => 0,
            };
            let uid: u32 = match sender_uid {
                Some(uid) => uid,
                None => u32::MAX,
            };
            *info = Some(
                SigInfo {
                    signo: injected,
                    errno: 0,
                    code: SigCode::User,
                    kind: SigType::Kill { pid: RawPid { data: pid }, uid },
                },
            );
        }
    }
    let p = pm.task(t);
    if p.sig_blocked.contains(injected) || p.fatal_signal_pending() {
        pm.act(Action::SendSignal { signal: injected, info: *info, to: t, scope: PidType::PID });
        return None;
    }
    Some(injected)
}

/// What a task at the entry or at the exit of a system call does for its tracer.
#[derive(Debug, PartialEq, Eq)]
pub struct SyscallReport {
    /// The system call is not made.
    pub skip: bool,
    /// How far the task is with the stop.
    pub step: StopStep,
}

/// The message of a stop at a system call.
pub open spec fn syscall_message(is_entry: bool) -> usize {
    if is_entry {
        PTRACE_EVENTMSG_SYSCALL_ENTRY
    } else {
        PTRACE_EVENTMSG_SYSCALL_EXIT
    }
}

/// The running task stops to tell the tracer of `t` of a system call.
pub open spec fn syscall_reported(
    pm: ProcessManagerView,
    t: TaskId,
    is_entry: bool,
    rsp: usize,
) -> ProcessManagerView {
    notified(
        with_message(pm, t, syscall_message(is_entry)),
        pm.task(t).syscall_stop_code(is_entry),
        pm.task(t).syscall_si_code(is_entry),
        rsp,
    )
}

impl ProcessControlBlock {
    pub open spec fn spec_reports_syscall(&self, is_entry: bool) -> bool {
        self.flags.trace_syscall || (is_entry && self.flags.trace_sysemu) || (!is_entry
            && self.flags.trace_singlestep)
    }

    /// Whether the task stops at the entry or at the exit of a system call.
    #[verifier::when_used_as_spec(spec_reports_syscall)]
    pub fn reports_syscall(&self, is_entry: bool) -> (b: bool)
        ensures
            b == self.reports_syscall(is_entry),
    {
        self.flags.trace_syscall || (is_entry && self.flags.trace_sysemu) || (!is_entry
            && self.flags.trace_singlestep)
    }

    /// The code of a stop at the entry or at the exit of a system call: `SIGTRAP`, with a mark
    /// if the tracer wants that, but not for a single step that goes over the exit.
    pub open spec fn syscall_stop_code(self, is_entry: bool) -> usize {
        if !(!is_entry && self.flags.trace_singlestep) && self.ptrace_state.options.contains(
            PtraceOptions::TRACESYSGOOD,
        ) {
            (Signal::SIGTRAP as usize) | 0x80
        } else {
            Signal::SIGTRAP as usize
        }
    }

    /// What the signal of such a stop says: the same code, or that of a breakpoint for a
    /// single step.
    pub open spec fn syscall_si_code(self, is_entry: bool) -> i32 {
        if !is_entry && self.flags.trace_singlestep {
            TRAP_BRKPT
        } else {
            self.syscall_stop_code(is_entry) as i32
        }
    }

    /// Stops the running task to tell its tracer of something; `exit_code` has to be that of
    /// a trap.
    pub fn ptrace_notify(pm: &mut ProcessManager, exit_code: usize, si_code: i32) -> (res: Result<
        StopStep,
        SystemError,
    >)
        requires
            old(pm)@.wf(),
        ensures
            if !is_trap_code(exit_code) {
                res == Err::<StopStep, _>(SystemError::EINVAL) && final(pm)@ == old(pm)@
            } else {
                &&& res == Ok::<_, SystemError>(
                    crate::ptrace::stop::stop_step(
                        old(pm)@,
                        old(pm)@.current,
                        exit_code,
                        SigChildCode::Trapped,
                    ),
                )
                &&& exists|rsp: usize|
                    final(pm)@ == #[trigger] crate::ptrace::stop::stop_begun(
                        old(pm)@,
                        old(pm)@.current,
                        exit_code,
                        rsp,
                        Some(trap_siginfo(old(pm)@.task(old(pm)@.current).raw_pid, si_code)),
                    )
            },
            final(pm)@.wf(),
            final(pm)@.current == old(pm)@.current,
    {
        let current = pm.current;
        if exit_code & (0x7fusize | !0xffffusize) != Signal::SIGTRAP as usize {
            return Err(SystemError::EINVAL);
        }
        let info = SigInfo {
            signo: Signal { nr: Signal::SIGTRAP },
            errno: 0,
            code: SigCode::Raw(si_code),
            kind: SigType::Kill { pid: pm.task(current).raw_pid, uid: 0 },
        };
        Ok(Self::ptrace_stop(pm, current, exit_code, SigChildCode::Trapped, Some(info)))
    }

    /// Has the running task send itself the signal that it goes on with after a stop.
    pub fn reinject_ptrace_signal(pm: &mut ProcessManager, signr: usize)
        ensures
            final(pm)@ == reinjected(old(pm)@, signr),
    {
        if signr == 0 {
            return;
        }
        let sig = Signal::from_i32(
            #[verifier::truncate]
            (signr as i32),
        );
        if sig.is(Signal::INVALID) {
            return;
        }
        let current = pm.current;
        pm.act(Action::SendSignal { signal: sig, info: None, to: current, scope: PidType::PID });
    }

    /// Stops the running task to tell its tracer of something, and hands a signal on if the
    /// task does not come to stand still.
    fn notify_and_reinject(pm: &mut ProcessManager, exit_code: usize, si_code: i32) -> (step:
        StopStep)
        requires
            old(pm)@.wf(),
            is_trap_code(exit_code),
        ensures
            step == crate::ptrace::stop::stop_step(
                old(pm)@,
                old(pm)@.current,
                exit_code,
                SigChildCode::Trapped,
            ),
            exists|rsp: usize|
                final(pm)@ == #[trigger] notified(old(pm)@, exit_code, si_code, rsp),
    {
        match Self::ptrace_notify(pm, exit_code, si_code) {
            Ok(step) => {
                let ghost rsp = choose|rsp: usize|
                    pm@ == #[trigger] crate::ptrace::stop::stop_begun(
                        old(pm)@,
                        old(pm)@.current,
                        exit_code,
                        rsp,
                        Some(trap_siginfo(old(pm)@.task(old(pm)@.current).raw_pid, si_code)),
                    );
                if let StopStep::Done(signr) = step {
                    Self::reinject_ptrace_signal(pm, signr);
                }
                assert(pm@ == notified(old(pm)@, exit_code, si_code, rsp));
                step
            },
            Err(_) => StopStep::Done(0),
        }
    }

    /// Notes a message for the tracer of a task.
    fn set_event_message(pm: &mut ProcessManager, t: TaskId, message: usize)
        requires
            old(pm)@.wf(),
            old(pm)@.has(t),
        ensures
            final(pm)@ == with_message(old(pm)@, t, message),
            final(pm)@.wf(),
    {
        let p = pm.task(t);
        pm.set_task(t, p.with_ptrace_state(p.ptrace_state.with_event_message(message)));
    }

    /// Goes on after a stop in which the running task told its tracer of something: it sends
    /// itself the signal that the tracer gave it.
    pub fn ptrace_notify_resume(pm: &mut ProcessManager, irq_guard: IrqFlagsGuard)
        requires
            old(pm)@.wf(),
        ensures
            final(pm)@ == reinjected(
                crate::ptrace::stop::stop_ended(old(pm)@, old(pm)@.current, irq_guard),
                crate::ptrace::stop::resume_number(
                    old(pm)@.task(old(pm)@.current).ptrace_state,
                ),
            ),
    {
        let current = pm.current;
        let mut info: Option<SigInfo> = None;
        let signr: usize = Self::ptrace_stop_resume(pm, current, &mut info, irq_guard);
        Self::reinject_ptrace_signal(pm, signr);
    }

    /// Tells the tracer of an event, if it wants to be told. If the task comes to stand still,
    /// `ptrace_notify_resume` goes on when it runs again.
    pub fn ptrace_event(
        pm: &mut ProcessManager,
        t: TaskId,
        event: PtraceEvent,
        message: usize,
    ) -> (step: StopStep)
        requires
            old(pm)@.wf(),
            old(pm)@.has(t),
        ensures
            ({
                let code = event_code(event, Signal { nr: Signal::SIGTRAP });
                let told = with_message(old(pm)@, t, message);
                if !old(pm)@.task(t).ptrace_event_enabled(event) {
                    step == StopStep::Done(0) && final(pm)@ == old(pm)@
                } else {
                    &&& step == crate::ptrace::stop::stop_step(
                        told,
                        told.current,
                        code,
                        SigChildCode::Trapped,
                    )
                    &&& exists|rsp: usize|
                        final(pm)@ == #[trigger] notified(told, code, code as i32, rsp)
                }
            }),
    {
        if !pm.task(t).ptrace_event_enabled(event) {
            return StopStep::Done(0);
        }
        Self::set_event_message(pm, t, message);
        let n: usize = event.number() as usize;
        proof {
            assert(n <= 128 ==> ((n << 8usize) | 5usize) & (0x7fusize | !0xffffusize) == 5usize)
                by (bit_vector);
        }
        let exit_code: usize = (n << 8usize) | (Signal::SIGTRAP as usize);
        let si_code: i32 = #[verifier::truncate]
        (exit_code as i32);
        Self::notify_and_reinject(pm, exit_code, si_code)
    }

    /// Has a seized task stop: as its whole process is stopped by `signal`, or as it was
    /// interrupted.
    pub fn ptrace_event_stop(pm: &mut ProcessManager, t: TaskId, signal: Signal) -> (step: StopStep)
        requires
            old(pm)@.wf(),
            old(pm)@.has(t),
        ensures
            ({
                let code = event_code(PtraceEvent::Stop, signal);
                &&& step == crate::ptrace::stop::stop_step(
                    old(pm)@,
                    t,
                    code,
                    SigChildCode::Stopped,
                )
                &&& exists|rsp: usize|
                    final(pm)@ == #[trigger] crate::ptrace::stop::stop_begun(
                        old(pm)@,
                        t,
                        code,
                        rsp,
                        Some(event_stop_siginfo(signal)),
                    )
            }),
            final(pm)@.wf(),
    {
        let exit_code: usize = ((PtraceEvent::Stop.number() as usize) << 8usize) | (
        signal.nr as usize);
        let si_code: i32 = #[verifier::truncate]
        (exit_code as i32);
        let info = SigInfo {
            signo: signal,
            errno: 0,
            code: SigCode::Raw(si_code),
            kind: SigType::Kill { pid: RawPid { data: 0 }, uid: 0 },
        };
        Self::ptrace_stop(pm, t, exit_code, SigChildCode::Stopped, Some(info))
    }

    /// Stops a task at the entry or at the exit of a system call, if its tracer wants that. If
    /// the task comes to stand still, `ptrace_notify_resume` goes on when it runs again.
    pub fn ptrace_report_syscall(
        pm: &mut ProcessManager,
        t: TaskId,
        is_entry: bool,
        _nr: u64,
        _args: &[usize; 6],
    ) -> (report: SyscallReport)
        requires
            old(pm)@.wf(),
            old(pm)@.has(t),
        ensures
            ({
                let p = old(pm)@.task(t);
                let told = with_message(old(pm)@, t, syscall_message(is_entry));
                &&& report.skip == (is_entry && p.flags.trace_sysemu)
                &&& if !p.reports_syscall(is_entry) {
                    report.step == StopStep::Done(0) && final(pm)@ == old(pm)@
                } else {
                    &&& report.step == crate::ptrace::stop::stop_step(
                        told,
                        told.current,
                        p.syscall_stop_code(is_entry),
                        SigChildCode::Trapped,
                    )
                    &&& exists|rsp: usize|
                        final(pm)@ == #[trigger] syscall_reported(old(pm)@, t, is_entry, rsp)
                }
            }),
    {
        let p = pm.task(t);
        if !p.reports_syscall(is_entry) {
            return SyscallReport { skip: false, step: StopStep::Done(0) };
        }
        let msg: usize = if is_entry {
            PTRACE_EVENTMSG_SYSCALL_ENTRY
        } else {
            PTRACE_EVENTMSG_SYSCALL_EXIT
        };
        let sysgood = p.ptrace_state.options.contains(PtraceOptions::TRACESYSGOOD);
        let sysemu_skip = is_entry && p.flags.trace_sysemu;
        proof {
            assert(5usize & (0x7fusize | !0xffffusize) == 5usize && (5usize | 0x80usize) & (
            0x7fusize | !0xffffusize) == 5usize) by (bit_vector);
        }
        Self::set_event_message(pm, t, msg);
        let step = if !is_entry && p.flags.trace_singlestep {
            Self::notify_and_reinject(pm, Signal::SIGTRAP as usize, TRAP_BRKPT)
        } else {
            let exit_code: usize = if sysgood {
                (Signal::SIGTRAP as usize) | 0x80
            } else {
                Signal::SIGTRAP as usize
            };
            let si_code: i32 = #[verifier::truncate]
            (exit_code as i32);
            Self::notify_and_reinject(pm, exit_code, si_code)
        };
        proof {
            let told = with_message(old(pm)@, t, msg);
            let rsp = choose|rsp: usize|
                pm@ == #[trigger] notified(
                    told,
                    p.syscall_stop_code(is_entry),
                    p.syscall_si_code(is_entry),
                    rsp,
                );
            assert(pm@ == syscall_reported(old(pm)@, t, is_entry, rsp));
        }
        SyscallReport { skip: sysemu_skip, step }
    }
}

/// Only a task that is traced, and that is not being killed, comes to stand still. Then its
/// tracer can make any request of it, whoever waits for it is told the code of the stop, and the
/// tracer reads the signal of the stop.
pub proof fn law_stopped_task_answers_its_tracer(
    pm: ProcessManagerView,
    t: TaskId,
    exit_code: usize,
    why: SigChildCode,
    rsp: usize,
    info: Option<SigInfo>,
    request: PtraceRequest,
)
    requires
        pm.has(t),
    ensures
        crate::ptrace::stop::stop_step(pm, t, exit_code, why) is Stopped <==> pm.is_ptraced(t)
            && !pm.task(t).fatal_signal_pending(),
        crate::ptrace::stop::stop_step(pm, t, exit_code, why) is Stopped ==> {
            let p = crate::ptrace::stop::stop_begun(pm, t, exit_code, rsp, info).task(t);
            &&& crate::ptrace::control::answers(p, request)
            &&& p.ptrace_state.stop_report() == Some(exit_code as i32)
            &&& p.ptrace_state.last_siginfo == info
            &&& !p.flags.trapping
        },
{
    reveal(ProcessControlBlock::spec_not_trapping);
    reveal(ProcessControlBlock::spec_standing_still);
}

/// A task goes on after a stop with the signal that its tracer gave it, and with none if it
/// gave none; and it goes on with it once only.
pub proof fn law_stop_ends_with_the_injected_signal(
    p: ProcessControlBlock,
    resume: PtraceRequest,
    signal: Option<Signal>,
)
    requires
        crate::ptrace::control::resume_signal(signal) is Ok,
    ensures
        ({
            let given = p.resumed(
                resume,
                crate::ptrace::control::resume_signal(signal)->Ok_0,
            ).ptrace_state;
            &&& crate::ptrace::stop::resume_number(given) == match signal {
                Some(s) => s.nr as usize,
                None => 0,
            }
            &&& crate::ptrace::stop::resume_number(given.after_stop()) == 0
        }),
{
}

/// What a tracer puts in the place of the signal of a stop is what the task goes on with.
pub proof fn law_replaced_siginfo_is_delivered(
    state: PtraceState,
    signal: Signal,
    new: SigInfo,
    old_info: SigInfo,
)
    ensures
        crate::ptrace::stop::resume_info(
            state.with_last_siginfo(Some(new)).resuming(signal),
            Some(old_info),
        ) == Some(new),
{
}

/// The tracer of a seized task can go over to listening in every event stop of it, and in no
/// stop for another event.
pub proof fn law_event_stop_can_be_listened_to(
    p: ProcessControlBlock,
    signal: Signal,
    rsp: usize,
    event: PtraceEvent,
    pid: RawPid,
)
    requires
        p.flags.pt_seized,
        signal.nr <= Signal::MAX_SIG_NUM,
        event != PtraceEvent::Stop,
    ensures
        p.standing_still(
            event_code(PtraceEvent::Stop, signal),
            rsp,
            Some(event_stop_siginfo(signal)),
        ).can_be_listened_to(),
        ({
            let code = event_code(event, Signal { nr: Signal::SIGTRAP });
            !p.standing_still(
                code,
                rsp,
                Some(trap_siginfo(pid, code as i32)),
            ).can_be_listened_to()
        }),
{
    reveal(ProcessControlBlock::spec_not_trapping);
    reveal(ProcessControlBlock::spec_standing_still);
    let nr = signal.nr as usize;
    let n = event.number() as usize;
    assert(nr <= 64 ==> (((128usize << 8usize) | nr) as i32) >> 8i32 == 128i32) by (bit_vector);
    assert(n <= 7 ==> (((n << 8usize) | 5usize) as i32) >> 8i32 != 128i32) by (bit_vector);
}

/// A task at the exit of a system call that it steps over tells its tracer of a step, and not
/// of a system call.
pub proof fn law_step_over_a_system_call_is_a_step(p: ProcessControlBlock)
    requires
        p.flags.trace_singlestep,
    ensures
        p.reports_syscall(false),
        p.syscall_stop_code(false) == Signal::SIGTRAP,
        p.syscall_si_code(false) == TRAP_BRKPT,
{
}

} // verus!
