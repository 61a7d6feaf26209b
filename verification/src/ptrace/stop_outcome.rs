//! What tracing stops come to: for the task, for its tracer and for its parent.
use crate::libs::spinlock::IrqFlagsGuard;
use crate::process::action::Action;
use crate::process::manager::ProcessManagerView;
use crate::process::pcb::{ProcessControlBlock, ProcessFlags, TaskId};
use crate::process::signal::{
    PidType, RawPid, SigChildCode, SigCode, SigHand, SigInfo, SigType, Signal,
};
use crate::ptrace::state::PtraceState;
use crate::ptrace::stop::StopStep;
use crate::ptrace::syscall_info::PtraceSyscallInfoOp;
use crate::ptrace::types::PtraceEvent;
use crate::sched::entity::{ProcessSchedulerInfo, ProcessState};
use vstd::prelude::*;

verus! {

/// A task stands still for its tracer if it has one that is still there and no `SIGKILL` waits
/// for it. Without a tracer it goes on with the code, and when it is being killed with nothing. In
/// any case it is on its way into a stop no longer.
#[verifier::rlimit(40)]
pub proof fn law_who_stands_still(
    pm: ProcessManagerView,
    t: TaskId,
    exit_code: usize,
    why: SigChildCode,
    rsp: usize,
    info: Option<SigInfo>,
)
    requires
        pm.has(t),
    ensures
        ({
            let p = pm.task(t);
            let step = crate::ptrace::stop::stop_step(pm, t, exit_code, why);
            let after = crate::ptrace::stop::stop_begun(pm, t, exit_code, rsp, info);
            let traced = p.flags.ptraced && (p.ptracer matches Some(u) && u < pm.tasks.len()
                && pm.tasks[u as int].alive);
            let killed = (p.sig_pending.bits >> 8u64) & 1 == 1;
            &&& !traced ==> step == StopStep::Done(exit_code)
            &&& traced && killed ==> step == StopStep::Done(0)
            &&& traced && !killed ==> step is Stopped
            &&& !after.tasks[t as int].flags.trapping
            &&& !(traced && !killed) ==> after.tasks[t as int].ptrace_state == p.ptrace_state
                && after.tasks[t as int].sched_info == p.sched_info && after.irq_enabled
                == pm.irq_enabled
            &&& after.actions == if traced || p.flags.trapping {
                pm.actions.push(Action::WakeTrapWaiters(t))
            } else {
                pm.actions
            }
            &&& forall|u: TaskId|
                pm.has(u) && u != t ==> #[trigger] after.tasks[u as int] == pm.tasks[u as int]
        }),
{
    reveal(ProcessControlBlock::spec_not_trapping);
    reveal(ProcessControlBlock::spec_standing_still);
}

/// A task that stands still is stopped, in a tracing stop with its code, which has yet to be
/// reported, and with the signal of the stop. Its registers are on the stack of system calls if
/// its stack pointer is. Interrupts are off till it goes on, and are then what they were.
pub proof fn law_task_that_stands_still(
    pm: ProcessManagerView,
    t: TaskId,
    exit_code: usize,
    why: SigChildCode,
    rsp: usize,
    info: Option<SigInfo>,
)
    requires
        pm.has(t),
        crate::ptrace::stop::stop_step(pm, t, exit_code, why) is Stopped,
    ensures
        ({
            let p = pm.task(t);
            let step = crate::ptrace::stop::stop_step(pm, t, exit_code, why);
            let after = crate::ptrace::stop::stop_begun(pm, t, exit_code, rsp, info);
            let q = after.task(t);
            &&& q.ptrace_state == (PtraceState {
                exit_code,
                listening: false,
                stop_report_pending: true,
                in_ptrace_stop: true,
                stop_frame_on_syscall_stack: p.syscall_stack.start <= rsp < p.syscall_stack.max,
                last_siginfo: info,
                ..p.ptrace_state
            })
            &&& q.flags == (ProcessFlags { trapping: false, ..p.flags })
            &&& q.sched_info == (ProcessSchedulerInfo {
                state: ProcessState::Stopped,
                ..p.sched_info
            })
            &&& q.ptracer == p.ptracer
            &&& q.kernel_frame == p.kernel_frame
            &&& q.syscall_frame == p.syscall_frame
            &&& !after.irq_enabled
            &&& step->irq_guard == (IrqFlagsGuard { was_enabled: pm.irq_enabled })
        }),
{
    reveal(ProcessControlBlock::spec_not_trapping);
    reveal(ProcessControlBlock::spec_standing_still);
}

/// A task takes part in the stop of its whole process if that is why it stops, and the code tells
/// of one of the four signals that stop a process.
pub proof fn law_who_takes_part_in_a_group_stop(exit_code: usize, why: SigChildCode)
    ensures
        ({
            let nr = exit_code & 0x7f;
            crate::ptrace::stop::group_stop_signal(exit_code, why) == if why
                == SigChildCode::Stopped && 19 <= nr <= 22 {
                Some(Signal { nr: nr as u32 })
            } else {
                None
            }
        }),
{
    let nr = exit_code & 0x7f;
    assert(exit_code & 0x7fusize <= 0x7fusize) by (bit_vector);
}

/// A task that goes on after a stop is in none any more, has nothing to report, and neither a
/// signal nor a message of the stop. It looks again whether a signal waits for it, and interrupts
/// are what they were. It goes on with the signal that its tracer gave it, and with what the
/// tracer has left of the signal of the stop, where there was one.
pub proof fn law_task_that_goes_on(
    pm: ProcessManagerView,
    t: TaskId,
    irq_guard: IrqFlagsGuard,
    info: Option<SigInfo>,
)
    requires
        pm.has(t),
    ensures
        ({
            let p = pm.task(t);
            let after = crate::ptrace::stop::stop_ended(pm, t, irq_guard);
            &&& after.tasks[t as int] == (ProcessControlBlock {
                ptrace_state: PtraceState {
                    injected_signal: Signal { nr: 0 },
                    listening: false,
                    stop_report_pending: false,
                    in_ptrace_stop: false,
                    last_siginfo: None,
                    event_message: 0,
                    exit_code: 0,
                    ..p.ptrace_state
                },
                ..p
            })
            &&& after.irq_enabled == irq_guard.was_enabled
            &&& after.actions == if p.alive {
                pm.actions.push(Action::RecalcSigpending(t))
            } else {
                pm.actions
            }
            &&& crate::ptrace::stop::resume_number(p.ptrace_state)
                == p.ptrace_state.injected_signal.nr
            &&& crate::ptrace::stop::resume_info(p.ptrace_state, info) == match (
                info,
                p.ptrace_state.last_siginfo,
            ) {
                (Some(_), Some(left)) => Some(left),
                _ => info,
            }
        }),
{
}

/// A tracer hears of its tracee by `SIGCHLD`, unless it ignores that, or it does not want to hear
/// of stops and this is not a tracing stop. The signal tells the number of the tracee, why, and
/// the signal in the code of the stop. Whoever waits in the tracer is woken after that in any
/// case, and then whoever waits in the first thread of its process.
pub proof fn law_tracer_hears_of_a_stop(
    pm: ProcessManagerView,
    tracee: TaskId,
    tracer: TaskId,
    why: SigChildCode,
    stop_code: usize,
)
    ensures
        ({
            let after = crate::ptrace::stop::tracer_notified(pm, tracee, tracer, why, stop_code);
            let action = pm.sighands[pm.task(tracer).sighand as int].sigchld;
            let told = if action matches Some(a) && !a.ignore && !(a.no_cld_stop && why
                != SigChildCode::Trapped) {
                pm.actions.push(
                    Action::SendSignal {
                        signal: Signal { nr: 17 },
                        info: Some(
                            SigInfo {
                                signo: Signal { nr: 17 },
                                errno: 0,
                                code: SigCode::Raw(
                                    match why {
                                        SigChildCode::Exited => 1,
                                        SigChildCode::Killed => 2,
                                        SigChildCode::Dumped => 3,
                                        SigChildCode::Trapped => 4,
                                        SigChildCode::Stopped => 5,
                                        SigChildCode::Continued => 6,
                                    },
                                ),
                                kind: SigType::SigChild {
                                    pid: pm.task(tracee).raw_pid,
                                    uid: 0,
                                    status: if why == SigChildCode::Stopped || why
                                        == SigChildCode::Trapped {
                                        (stop_code & 0x7f) as i32
                                    } else {
                                        18
                                    },
                                    utime: 0,
                                    stime: 0,
                                },
                            },
                        ),
                        to: tracer,
                        scope: PidType::TGID,
                    },
                )
            } else {
                pm.actions
            };
            let woken = told.push(Action::WakeAllWaiters(tracer));
            &&& after.tasks == pm.tasks
            &&& after.actions == match pm.task(tracer).group_leader {
                Some(leader) if leader < pm.tasks.len() && pm.tasks[leader as int].alive && leader
                    != tracer => woken.push(Action::WakeAllWaiters(leader)),
                _ => woken,
            }
        }),
{
}

/// When a whole process has stopped its parent hears of it too, by `SIGCHLD`, unless the parent is
/// of the process of the tracer, and is then woken if it waits. If the process has not stopped as
/// a whole the tracer alone hears of the stop, and without a tracer nobody does.
pub proof fn law_parent_hears_of_a_group_stop(
    pm: ProcessManagerView,
    tracee: TaskId,
    parent: TaskId,
    exit_code: usize,
    why: SigChildCode,
)
    requires
        pm.has(tracee),
        pm.task(tracee).real_parent == Some(parent),
        pm.has(parent),
        pm.task(parent).alive,
    ensures
        ({
            let tracer = pm.task(tracee).ptracer;
            let traced = tracer matches Some(u) && u < pm.tasks.len() && pm.tasks[u as int].alive;
            let told = if traced {
                crate::ptrace::stop::tracer_notified(pm, tracee, tracer->Some_0, why, exit_code)
            } else {
                pm
            };
            let after = crate::ptrace::stop::stop_notified(pm, tracee, exit_code, why, true);
            &&& crate::ptrace::stop::stop_notified(pm, tracee, exit_code, why, false) == told
            &&& traced && pm.task(tracer->Some_0).tgid == pm.task(parent).tgid ==> after == told
            &&& !(traced && pm.task(tracer->Some_0).tgid == pm.task(parent).tgid) ==> after.actions
                == told.actions.push(
                Action::SendSignal {
                    signal: Signal { nr: 17 },
                    info: Some(
                        SigInfo {
                            signo: Signal { nr: 17 },
                            errno: 0,
                            code: SigCode::Raw(5),
                            kind: SigType::SigChild {
                                pid: pm.task(tracee).raw_pid,
                                uid: 0,
                                status: (exit_code & 0x7f) as i32,
                                utime: 0,
                                stime: 0,
                            },
                        },
                    ),
                    to: parent,
                    scope: PidType::TGID,
                },
            ).push(Action::WakeAllWaiters(parent))
        }),
{
}

/// The code of a stop for an event is 256 times the number of the event, and the signal. A code is
/// one of a trap exactly if it tells of `SIGTRAP`, with or without a mark, and of an event that
/// fits into a byte.
pub proof fn law_codes_of_stops(event: PtraceEvent, signal: Signal, exit_code: usize)
    requires
        signal.nr < 256,
    ensures
        crate::ptrace::report::event_code(event, signal) == 256 * match event {
            PtraceEvent::Fork => 1,
            PtraceEvent::VFork => 2,
            PtraceEvent::Clone => 3,
            PtraceEvent::Exec => 4,
            PtraceEvent::VForkDone => 5,
            PtraceEvent::Exit => 6,
            PtraceEvent::Seccomp => 7,
            PtraceEvent::Stop => 128int,
        } + signal.nr,
        crate::ptrace::report::is_trap_code(exit_code) <==> exit_code < 0x1_0000 && exit_code % 0x80
            == 5,
{
    let n = event.number() as usize;
    let nr = signal.nr as usize;
    assert((n <= 128 && nr < 256 ==> (n << 8usize) | nr == 256 * n + nr) && (exit_code & (0x7fusize
        | !0xffffusize) == 5usize <==> exit_code < 0x1_0000usize && exit_code % 0x80usize
        == 5usize)) by (bit_vector);
}

/// What the signals of stops tell: a trap tells of `SIGTRAP` with a code of its own and the task
/// itself; an event stop of its signal, with the code of the stop; and a signal that a tracer put
/// in the place of another one comes from a process, as far as that is known.
pub proof fn law_signals_of_stops(
    pid: RawPid,
    si_code: i32,
    signal: Signal,
    sender_vpid: Option<usize>,
    sender_uid: Option<u32>,
)
    ensures
        crate::ptrace::report::trap_siginfo(pid, si_code) == (SigInfo {
            signo: Signal { nr: 5 },
            errno: 0,
            code: SigCode::Raw(si_code),
            kind: SigType::Kill { pid, uid: 0 },
        }),
        crate::ptrace::report::event_stop_siginfo(signal) == (SigInfo {
            signo: signal,
            errno: 0,
            code: SigCode::Raw(
                crate::ptrace::report::event_code(PtraceEvent::Stop, signal) as i32,
            ),
            kind: SigType::Kill { pid: RawPid { data: 0 }, uid: 0 },
        }),
        ({
            let info = crate::ptrace::report::replaced_siginfo(signal, sender_vpid, sender_uid);
            &&& info.signo == signal
            &&& info.errno == 0
            &&& info.code == SigCode::User
            &&& info.kind matches SigType::Kill { pid: from, uid } && from.data == (
            if sender_vpid is Some {
                sender_vpid->Some_0
            } else {
                0
            }) && uid == (if sender_uid is Some {
                sender_uid->Some_0
            } else {
                0xffff_ffff
            })
        }),
{
}

/// A task that goes on with the number of a signal sends that signal to itself, or acts on it; 0
/// and numbers that no signal has are nothing to go on with.
pub proof fn law_number_that_a_task_goes_on_with(pm: ProcessManagerView, signr: usize)
    requires
        signr <= i32::MAX,
    ensures
        1 <= signr <= 64 ==> crate::ptrace::report::injected_signal(signr) == Some(
            Signal { nr: signr as u32 },
        ),
        signr == 0 || signr > 64 ==> crate::ptrace::report::injected_signal(signr) is None,
        crate::ptrace::report::reinjected(pm, signr).tasks == pm.tasks,
        crate::ptrace::report::reinjected(pm, signr).actions == if 1 <= signr <= 64 {
            pm.actions.push(
                Action::SendSignal {
                    signal: Signal { nr: signr as u32 },
                    info: None,
                    to: pm.current,
                    scope: PidType::PID,
                },
            )
        } else {
            pm.actions
        },
{
}

/// What is told of a signal stays if the tracer left the signal, and tells of the tracer if it
/// put another one in its place. Where nothing was told nothing is.
pub proof fn law_what_is_told_of_a_signal(
    signal: Signal,
    info: SigInfo,
    sender_vpid: Option<usize>,
    sender_uid: Option<u32>,
)
    ensures
        crate::ptrace::report::delivered_info(signal, None, sender_vpid, sender_uid) is None,
        info.signo.nr == signal.nr ==> crate::ptrace::report::delivered_info(
            signal,
            Some(info),
            sender_vpid,
            sender_uid,
        ) == Some(info),
        info.signo.nr != signal.nr ==> crate::ptrace::report::delivered_info(
            signal,
            Some(info),
            sender_vpid,
            sender_uid,
        ) == Some(crate::ptrace::report::replaced_siginfo(signal, sender_vpid, sender_uid)),
{
}

/// A task stops at the entry of a system call if it traces system calls or does not make them,
/// and at the exit if it traces them or steps. The code is `SIGTRAP`, with the mark if the tracer
/// wants that and this is not a step; the signal of the stop tells the same code, and that of a
/// step a breakpoint. The message tells the entry from the exit.
pub proof fn law_stops_at_system_calls(p: ProcessControlBlock)
    ensures
        p.reports_syscall(true) <==> p.flags.trace_syscall || p.flags.trace_sysemu,
        p.reports_syscall(false) <==> p.flags.trace_syscall || p.flags.trace_singlestep,
        p.syscall_stop_code(true) == if p.ptrace_state.options.bits & 1 == 1 {
            0x85usize
        } else {
            5usize
        },
        p.syscall_stop_code(false) == if p.ptrace_state.options.bits & 1 == 1
            && !p.flags.trace_singlestep {
            0x85usize
        } else {
            5usize
        },
        p.syscall_si_code(true) == p.syscall_stop_code(true),
        p.syscall_si_code(false) == if p.flags.trace_singlestep {
            1
        } else {
            p.syscall_stop_code(false) as int
        },
        crate::ptrace::report::syscall_message(true) == 1,
        crate::ptrace::report::syscall_message(false) == 2,
{
    assert(5usize | 0x80usize == 0x85usize) by (bit_vector);
}

/// A message for the tracer replaces the one before, and nothing else.
pub proof fn law_message_for_the_tracer(pm: ProcessManagerView, t: TaskId, message: usize)
    requires
        pm.has(t),
    ensures
        crate::ptrace::report::with_message(pm, t, message) == (ProcessManagerView {
            tasks: pm.tasks.update(
                t as int,
                ProcessControlBlock {
                    ptrace_state: PtraceState {
                        event_message: message,
                        ..pm.task(t).ptrace_state
                    },
                    ..pm.task(t)
                },
            ),
            ..pm
        }),
{
}

/// A task that stops to tell its tracer of something stands still with that code and a signal of
/// a trap that tells the task itself. If it has no tracer it sends itself the signal in the code,
/// and if it is being killed nothing.
#[verifier::rlimit(40)]
pub proof fn law_telling_the_tracer(
    pm: ProcessManagerView,
    exit_code: usize,
    si_code: i32,
    rsp: usize,
)
    requires
        pm.wf(),
    ensures
        ({
            let t = pm.current;
            let p = pm.task(t);
            let after = crate::ptrace::report::notified(pm, exit_code, si_code, rsp);
            let traced = p.flags.ptraced && (p.ptracer matches Some(u) && u < pm.tasks.len()
                && pm.tasks[u as int].alive);
            let killed = (p.sig_pending.bits >> 8u64) & 1 == 1;
            &&& traced && !killed ==> ({
                let q = after.task(t);
                &&& q.sched_info.state == ProcessState::Stopped
                &&& q.ptrace_state.in_ptrace_stop
                &&& q.ptrace_state.exit_code == exit_code
                &&& q.ptrace_state.last_siginfo == Some(
                    SigInfo {
                        signo: Signal { nr: 5 },
                        errno: 0,
                        code: SigCode::Raw(si_code),
                        kind: SigType::Kill { pid: p.raw_pid, uid: 0 },
                    },
                )
                &&& after.actions == pm.actions.push(Action::WakeTrapWaiters(t))
            })
            &&& traced && killed ==> after.task(t).sched_info == p.sched_info && after.actions
                == pm.actions.push(Action::WakeTrapWaiters(t))
            &&& !traced && 1 <= exit_code <= 64 ==> after.task(t).sched_info == p.sched_info
                && after.actions.last() == (Action::SendSignal {
                signal: Signal { nr: exit_code as u32 },
                info: None,
                to: t,
                scope: PidType::PID,
            })
        }),
{
    reveal(ProcessControlBlock::spec_not_trapping);
    reveal(ProcessControlBlock::spec_standing_still);
}

/// Where in a system call a task is stopped is told by the code in the signal of the stop and by
/// the message: a marked trap with message 1 is an entry and with message 2 an exit, and the event
/// of a filter is told by its number. Otherwise the task is in no system call.
pub proof fn law_where_in_a_system_call(state: PtraceState, code: i32)
    requires
        match state.last_siginfo {
            Some(info) => match info.code {
                SigCode::Raw(c) => code == c,
                SigCode::User => code == 0,
                SigCode::Kernel => code == 0x80,
            },
            None => code == 0,
        },
    ensures
        crate::ptrace::syscall_info::syscall_op(state) == if code & 0xff == 0x85
            && state.event_message == 1 {
            PtraceSyscallInfoOp::Entry
        } else if code & 0xff == 0x85 && state.event_message == 2 {
            PtraceSyscallInfoOp::Exit
        } else if code >> 8 == 7 {
            PtraceSyscallInfoOp::Seccomp
        } else {
            PtraceSyscallInfoOp::Outside
        },
{
}

/// The arguments of a system call are in six registers, in this order, as they were saved for the
/// stop.
pub proof fn law_arguments_of_a_system_call(p: ProcessControlBlock)
    ensures
        ({
            let frame = if p.ptrace_state.stop_frame_on_syscall_stack {
                p.syscall_frame
            } else {
                p.kernel_frame
            };
            &&& p.syscall_args().len() == 6
            &&& p.syscall_args()[0] == frame.rdi
            &&& p.syscall_args()[1] == frame.rsi
            &&& p.syscall_args()[2] == frame.rdx
            &&& p.syscall_args()[3] == frame.r10
            &&& p.syscall_args()[4] == frame.r8
            &&& p.syscall_args()[5] == frame.r9
        }),
{
}

/// Signal numbers are those of the signals from 1 to 64; four of them stop a process. A set holds
/// a signal if the bit for it is set, which is the one below its number. A pending `SIGKILL` is
/// fatal.
pub proof fn law_signal_numbers(value: i32, signal: Signal, p: ProcessControlBlock)
    ensures
        0 <= value <= 64 ==> Signal::from_i32(value).nr == value,
        value < 0 || value > 64 ==> Signal::from_i32(value).nr == 0,
        signal.is_kernel_stop() <==> signal.nr == 19 || signal.nr == 20 || signal.nr == 21
            || signal.nr == 22,
        p.sig_pending.contains(signal) <==> 1 <= signal.nr <= 64 && (p.sig_pending.bits >> ((
        signal.nr - 1) as u64)) & 1 == 1,
        p.fatal_signal_pending() <==> (p.sig_pending.bits >> 8u64) & 1 == 1,
{
}

/// A process that a signal has stopped as a whole knows that signal; whether its parent has yet
/// to hear of it is kept apart.
pub proof fn law_process_that_is_stopped(hand: SigHand, signal: Signal, v: bool)
    ensures
        hand.stopped_by(signal) == (SigHand { stop_signal: signal, stop_stopped: true, ..hand }),
        hand.with_cld_stopped(v) == (SigHand { cld_stopped: v, ..hand }),
{
}

/// A task that stops at a system call of its own stands still with a code of `SIGTRAP`, marked if
/// its tracer wants that, and with a message that tells the entry from the exit.
#[verifier::rlimit(40)]
pub proof fn law_task_stops_at_a_system_call(pm: ProcessManagerView, is_entry: bool, rsp: usize)
    requires
        pm.wf(),
        pm.task(pm.current).flags.ptraced,
        pm.task(pm.current).ptracer matches Some(u) && u < pm.tasks.len() && u != pm.current
            && pm.tasks[u as int].alive,
        (pm.task(pm.current).sig_pending.bits >> 8u64) & 1 == 0,
        !pm.task(pm.current).flags.trace_singlestep,
    ensures
        ({
            let t = pm.current;
            let after = crate::ptrace::report::syscall_reported(pm, t, is_entry, rsp);
            let q = after.task(t);
            let code = if pm.task(t).ptrace_state.options.bits & 1 == 1 {
                0x85usize
            } else {
                5usize
            };
            &&& q.sched_info.state == ProcessState::Stopped
            &&& q.ptrace_state.in_ptrace_stop
            &&& q.ptrace_state.exit_code == code
            &&& q.ptrace_state.event_message == if is_entry {
                1usize
            } else {
                2usize
            }
            &&& q.ptrace_state.last_siginfo matches Some(info) && info.signo.nr == 5 && info.code
                == SigCode::Raw(code as i32)
        }),
{
    reveal(ProcessControlBlock::spec_not_trapping);
    reveal(ProcessControlBlock::spec_standing_still);
    law_stops_at_system_calls(pm.task(pm.current));
}

/// The signal in the code of a stop is told by the lowest seven bits; there is none if they name
/// none.
pub proof fn law_signal_in_the_code_of_a_stop(exit_code: usize)
    requires
        exit_code <= i32::MAX,
    ensures
        exit_code % 128 <= 64 ==> crate::ptrace::control::stop_signal_of(exit_code).nr == exit_code
            % 128,
        exit_code % 128 > 64 ==> crate::ptrace::control::stop_signal_of(exit_code).nr == 0,
{
    let code = exit_code as i32;
    assert(code >= 0i32 ==> code & 0x7fi32 == code % 128i32) by (bit_vector);
}

/// Without a parent that is still there, the tracer alone hears of a stop, also of that of a whole
/// process.
pub proof fn law_orphan_tells_its_tracer(
    pm: ProcessManagerView,
    tracee: TaskId,
    exit_code: usize,
    why: SigChildCode,
    gstop_done: bool,
)
    requires
        pm.has(tracee),
        pm.task(tracee).real_parent matches Some(u) ==> !(u < pm.tasks.len()
            && pm.tasks[u as int].alive),
    ensures
        ({
            let tracer = pm.task(tracee).ptracer;
            let after = crate::ptrace::stop::stop_notified(pm, tracee, exit_code, why, gstop_done);
            if tracer matches Some(u) && u < pm.tasks.len() && pm.tasks[u as int].alive {
                after == crate::ptrace::stop::tracer_notified(
                    pm,
                    tracee,
                    tracer->Some_0,
                    why,
                    exit_code,
                )
            } else {
                after == pm
            }
        }),
{
}

} // verus!
