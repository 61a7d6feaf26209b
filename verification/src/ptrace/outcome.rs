//! What the requests of a tracer come to for the task that is traced.
use crate::error::SystemError;
use crate::interrupt::trap_frame::TrapFrame;
use crate::process::action::Action;
use crate::process::manager::ProcessManagerView;
use crate::process::pcb::{ExitState, ProcessControlBlock, ProcessFlags, TaskId};
use crate::process::signal::{PidType, RawPid, SigCode, SigInfo, SigType, Signal};
use crate::ptrace::relation::WaitOption;
use crate::ptrace::state::PtraceState;
use crate::ptrace::types::{PtraceEvent, PtraceOptions, PtraceRequest};
use crate::sched::entity::ProcessState;
use vstd::prelude::*;

verus! {

/// A task that runs on other than step by step does not trap after an instruction for its
/// tracer: the trap flag is not one of the tracer, and the saved flags, on either stack, are what
/// they were, less the trap flag of the current stop if the tracer had set it. So they never gain
/// it.
pub proof fn law_task_that_does_not_step_gains_no_trap_flag(
    p: ProcessControlBlock,
    request: PtraceRequest,
    signal: Signal,
)
    requires
        request != PtraceRequest::Singlestep,
        request != PtraceRequest::SysemuSinglestep,
    ensures
        ({
            let q = p.resumed(request, signal);
            let on_syscall_stack = p.ptrace_state.stop_frame_on_syscall_stack;
            let forced = p.ptrace_state.forced_trap_flag;
            &&& !q.ptrace_state.forced_trap_flag
            &&& q.kernel_frame.rflags == if forced && !on_syscall_stack {
                p.kernel_frame.rflags & !0x100
            } else {
                p.kernel_frame.rflags
            }
            &&& q.syscall_frame.rflags == if forced && on_syscall_stack {
                p.syscall_frame.rflags & !0x100
            } else {
                p.syscall_frame.rflags
            }
            &&& q.kernel_frame.rflags & 0x100 != 0 ==> p.kernel_frame.rflags & 0x100 != 0
            &&& q.syscall_frame.rflags & 0x100 != 0 ==> p.syscall_frame.rflags & 0x100 != 0
            &&& q.kernel_frame == (TrapFrame { rflags: q.kernel_frame.rflags, ..p.kernel_frame })
            &&& q.syscall_frame == (TrapFrame { rflags: q.syscall_frame.rflags, ..p.syscall_frame })
        }),
{
    let k = p.kernel_frame.rflags;
    let s = p.syscall_frame.rflags;
    assert((k & !0x100u64) & 0x100u64 == 0 && (s & !0x100u64) & 0x100u64 == 0) by (bit_vector);
}

/// A task that steps has the trap flag set in the registers of the current stop, for its tracer,
/// and the registers are the same otherwise. If it steps over system calls that are not made, the
/// registers stay as they are.
pub proof fn law_task_that_steps_has_the_trap_flag(p: ProcessControlBlock, signal: Signal)
    ensures
        ({
            let q = p.resumed(PtraceRequest::Singlestep, signal);
            let on_syscall_stack = p.ptrace_state.stop_frame_on_syscall_stack;
            let old = if on_syscall_stack {
                p.syscall_frame
            } else {
                p.kernel_frame
            };
            let new = if on_syscall_stack {
                q.syscall_frame
            } else {
                q.kernel_frame
            };
            &&& q.ptrace_state.forced_trap_flag
            &&& new.rflags & 0x100 != 0
            &&& new == (TrapFrame { rflags: old.rflags | 0x100, ..old })
            &&& on_syscall_stack ==> q.kernel_frame == p.kernel_frame
            &&& !on_syscall_stack ==> q.syscall_frame == p.syscall_frame
        }),
        ({
            let q = p.resumed(PtraceRequest::SysemuSinglestep, signal);
            &&& q.ptrace_state.forced_trap_flag == p.ptrace_state.forced_trap_flag
            &&& q.kernel_frame == p.kernel_frame
            &&& q.syscall_frame == p.syscall_frame
        }),
{
    let k = p.kernel_frame.rflags;
    let s = p.syscall_frame.rflags;
    assert((k | 0x100u64) & 0x100u64 != 0 && (s | 0x100u64) & 0x100u64 != 0) by (bit_vector);
}

/// Setting the trap flag for the tracer, and taking it off, touches nothing but that flag.
proof fn lemma_stepping_keeps(p: ProcessControlBlock)
    ensures
        ({
            let q = p.single_stepping();
            &&& q.flags == p.flags
            &&& q.ptrace_state == (PtraceState { forced_trap_flag: true, ..p.ptrace_state })
            &&& q.sched_info == p.sched_info
            &&& q.ptracer == p.ptracer
            &&& q.exit_state == p.exit_state
            &&& q.sig_pending == p.sig_pending
            &&& q.sig_blocked == p.sig_blocked
            &&& q.has_pending_signal == p.has_pending_signal
            &&& q.sighand == p.sighand
            &&& q.raw_pid == p.raw_pid
            &&& q.tgid == p.tgid
            &&& q.alive == p.alive
            &&& q.user_vm == p.user_vm
        }),
        ({
            let q = p.single_step_disabled();
            &&& q.flags == p.flags
            &&& q.ptrace_state == (PtraceState { forced_trap_flag: false, ..p.ptrace_state })
            &&& q.sched_info == p.sched_info
            &&& q.ptracer == p.ptracer
            &&& q.exit_state == p.exit_state
            &&& q.sig_pending == p.sig_pending
            &&& q.sig_blocked == p.sig_blocked
            &&& q.has_pending_signal == p.has_pending_signal
            &&& q.sighand == p.sighand
            &&& q.raw_pid == p.raw_pid
            &&& q.tgid == p.tgid
            &&& q.alive == p.alive
            &&& q.user_vm == p.user_vm
        }),
{
}

/// A task that runs on has left its stop, which is neither reported nor listened for any more,
/// and goes on with the signal that was given. Of the three kinds of work for the tracer it has
/// the one that was asked for: to stop at system calls, to stop at them and not make them, and
/// to step. Nothing else changes but the trap flag.
#[verifier::rlimit(40)]
pub proof fn law_resumed_task_is_on_its_way(
    p: ProcessControlBlock,
    request: PtraceRequest,
    signal: Signal,
)
    ensures
        ({
            let q = p.resumed(request, signal);
            &&& q.ptrace_state == (PtraceState {
                injected_signal: signal,
                listening: false,
                stop_report_pending: false,
                in_ptrace_stop: false,
                forced_trap_flag: q.ptrace_state.forced_trap_flag,
                ..p.ptrace_state
            })
            &&& q.flags == (ProcessFlags {
                trace_syscall: request == PtraceRequest::Syscall,
                trace_singlestep: request == PtraceRequest::Singlestep || request
                    == PtraceRequest::SysemuSinglestep,
                trace_sysemu: request == PtraceRequest::Sysemu || request
                    == PtraceRequest::SysemuSinglestep,
                ..p.flags
            })
            &&& q.sched_info == p.sched_info
            &&& q.ptracer == p.ptracer
            &&& q.exit_state == p.exit_state
            &&& q.sig_pending == p.sig_pending
            &&& q.sig_blocked == p.sig_blocked
            &&& q.has_pending_signal == p.has_pending_signal
            &&& q.sighand == p.sighand
            &&& q.raw_pid == p.raw_pid
            &&& q.tgid == p.tgid
            &&& q.alive == p.alive
            &&& q.user_vm == p.user_vm
        }),
{
    let w = p.with_trace_work(
        request == PtraceRequest::Syscall,
        request == PtraceRequest::Singlestep || request == PtraceRequest::SysemuSinglestep,
        request == PtraceRequest::Sysemu || request == PtraceRequest::SysemuSinglestep,
    );
    let s = p.set_up_for(request);
    lemma_stepping_keeps(w);
    assert(s == w.single_stepping() || s == w || s == w.single_step_disabled());
    assert(s.flags == w.flags);
    assert(s.ptrace_state == (PtraceState {
        forced_trap_flag: s.ptrace_state.forced_trap_flag,
        ..p.ptrace_state
    }));
}

/// A task goes on without a signal if none is given, and else with that one; number 0 is no
/// signal that can be given. Only five requests let a task run.
pub proof fn law_what_a_task_goes_on_with(signal: Signal, request: PtraceRequest)
    ensures
        crate::ptrace::control::resume_signal(None) == Ok::<Signal, SystemError>(Signal { nr: 0 }),
        signal.nr == 0 ==> crate::ptrace::control::resume_signal(Some(signal)) == Err::<Signal, _>(
            SystemError::EIO,
        ),
        signal.nr != 0 ==> crate::ptrace::control::resume_signal(Some(signal)) == Ok::<
            Signal,
            SystemError,
        >(signal),
        crate::ptrace::control::is_resume(request) <==> match request {
            PtraceRequest::Cont => true,
            PtraceRequest::Singlestep => true,
            PtraceRequest::Syscall => true,
            PtraceRequest::Sysemu => true,
            PtraceRequest::SysemuSinglestep => true,
            _ => false,
        },
{
}

/// A task may trace one of its own process, any task if it has the capability, and otherwise one
/// whose user and group numbers, the effective and the saved ones too, are all its own, and whose
/// memory may be looked at.
pub proof fn law_who_may_trace(p: ProcessControlBlock, tracee: ProcessControlBlock)
    ensures
        p.tgid == tracee.tgid ==> p.has_permission_to_trace(&tracee),
        p.cred.cap_sys_ptrace ==> p.has_permission_to_trace(&tracee),
        p.tgid != tracee.tgid && !p.cred.cap_sys_ptrace && (tracee.dumpable == 0 || tracee.cred.uid
            != p.cred.uid || tracee.cred.euid != p.cred.uid || tracee.cred.suid != p.cred.uid
            || tracee.cred.gid != p.cred.gid || tracee.cred.egid != p.cred.gid || tracee.cred.sgid
            != p.cred.gid) ==> !p.has_permission_to_trace(&tracee),
        tracee.dumpable != 0 && tracee.cred.uid == p.cred.uid && tracee.cred.euid == p.cred.uid
            && tracee.cred.suid == p.cred.uid && tracee.cred.gid == p.cred.gid && tracee.cred.egid
            == p.cred.gid && tracee.cred.sgid == p.cred.gid ==> p.has_permission_to_trace(&tracee),
{
}

/// A tracer can attach exactly to a task of another process that is no kernel thread, is not on
/// its way out, has no tracer that is still there, and that it may trace.
pub proof fn law_who_can_attach(pm: ProcessManagerView, tracee: TaskId, tracer: TaskId)
    ensures
        crate::ptrace::control::can_attach(pm, tracee, tracer) <==> {
            let p = pm.task(tracee);
            &&& p.tgid != pm.task(tracer).tgid
            &&& !p.flags.kthread
            &&& p.exit_state == ExitState::Running
            &&& p.ptracer matches Some(other) ==> !(other < pm.tasks.len()
                && pm.tasks[other as int].alive)
            &&& pm.task(tracer).has_permission_to_trace(&p)
        },
        crate::ptrace::relation::can_link(pm, tracee, tracer) <==> {
            let p = pm.task(tracee);
            &&& p.exit_state == ExitState::Running
            &&& p.ptracer matches Some(other) ==> !(other < pm.tasks.len()
                && pm.tasks[other as int].alive)
            &&& pm.task(tracer).has_permission_to_trace(&p)
        },
{
}

/// A task that gets a tracer knows it and is marked, and its number is in the list of the tracer
/// once more than before only if it was not there. Nothing else changes, neither of the task nor
/// of any other one.
pub proof fn law_task_gets_its_tracer(pm: ProcessManagerView, tracee: TaskId, tracer: TaskId)
    requires
        pm.wf(),
        pm.has(tracee),
        pm.has(tracer),
    ensures
        ({
            let after = pm.linked(tracee, tracer);
            let p = pm.task(tracee);
            let list = pm.ptraced[tracer as int];
            &&& after.tasks[tracee as int] == (ProcessControlBlock {
                ptracer: Some(tracer),
                flags: ProcessFlags { ptraced: true, ..p.flags },
                ..p
            })
            &&& after.tasks.len() == pm.tasks.len()
            &&& forall|t: TaskId|
                pm.has(t) && t != tracee ==> #[trigger] after.tasks[t as int] == pm.tasks[t as int]
            &&& list.contains(p.raw_pid) ==> after.ptraced[tracer as int] == list
            &&& !list.contains(p.raw_pid) ==> after.ptraced[tracer as int] == list.push(p.raw_pid)
            &&& forall|t: TaskId|
                pm.has(t) && t != tracer ==> #[trigger] after.ptraced[t as int]
                    == pm.ptraced[t as int]
            &&& after.actions == pm.actions
        }),
{
}

/// A task that is seized is marked so and has the options that its tracer gave. Nothing else of
/// it changes.
pub proof fn law_seized_task_has_its_options(p: ProcessControlBlock, options: PtraceOptions)
    ensures
        p.seized(options) == (ProcessControlBlock {
            flags: ProcessFlags { pt_seized: true, ..p.flags },
            ptrace_state: PtraceState { options, ..p.ptrace_state },
            ..p
        }),
{
}

/// A task whose stop turns into a tracing stop has that to report, with the signal that stopped
/// its process as the code and no signal of its own. Its registers are on the stack of system
/// calls exactly if its stack pointer is. It is on its way into a stop no longer, and first who
/// waits for that is woken, then who waits for the children of the tracer, if there is a tracer.
pub proof fn law_stop_turns_into_a_tracing_stop(pm: ProcessManagerView, t: TaskId)
    requires
        pm.wf(),
        pm.has(t),
    ensures
        ({
            let after = crate::ptrace::control::attach_trapped(pm, t);
            let p = pm.task(t);
            let signal = pm.sighands[p.sighand as int].stop_signal;
            let woken = pm.actions.push(Action::WakeTrapWaiters(t));
            &&& after.tasks[t as int] == (ProcessControlBlock {
                flags: ProcessFlags { pending_ptrace_stop: true, trapping: false, ..p.flags },
                ptrace_state: PtraceState {
                    in_ptrace_stop: true,
                    stop_report_pending: true,
                    exit_code: signal.nr as usize,
                    listening: false,
                    last_siginfo: None,
                    stop_frame_on_syscall_stack: p.syscall_stack.start <= p.kernel_rsp
                        < p.syscall_stack.max,
                    ..p.ptrace_state
                },
                ..p
            })
            &&& forall|u: TaskId|
                pm.has(u) && u != t ==> #[trigger] after.tasks[u as int] == pm.tasks[u as int]
            &&& match p.ptracer {
                Some(tracer) if tracer < pm.tasks.len() && pm.tasks[tracer as int].alive =>
                    after.actions == woken.push(Action::WakeAllWaiters(tracer)),
                _ => after.actions == woken,
            }
        }),
{
}

/// What is sent to a task to stop it for its new tracer: `SIGSTOP`, from the kernel.
pub proof fn law_attaching_sends_a_stop()
    ensures
        crate::ptrace::control::attach_siginfo().signo.nr == 19,
        crate::ptrace::control::attach_siginfo().errno == 0,
        crate::ptrace::control::attach_siginfo().code == SigCode::Kernel,
        crate::ptrace::control::attach_siginfo().kind == (SigType::Kill {
            pid: RawPid { data: 0 },
            uid: 0,
        }),
{
}

/// A task that is no longer on its way into a stop loses that mark only, and who waits for it is
/// woken only if it had it.
pub proof fn law_trapping_ends_once(pm: ProcessManagerView, t: TaskId)
    requires
        pm.has(t),
    ensures
        ({
            let after = pm.trapping_cleared(t);
            let p = pm.task(t);
            &&& after.tasks[t as int] == (ProcessControlBlock {
                flags: ProcessFlags { trapping: false, ..p.flags },
                ..p
            })
            &&& after.actions == if p.flags.trapping {
                pm.actions.push(Action::WakeTrapWaiters(t))
            } else {
                pm.actions
            }
        }),
{
}

/// A request other than to be killed or interrupted is answered by a task that is stopped, in a
/// tracing stop, and not merely listened for; to be killed or interrupted, by every task.
pub proof fn law_which_requests_a_task_answers(p: ProcessControlBlock, request: PtraceRequest)
    ensures
        request == PtraceRequest::Kill || request == PtraceRequest::Interrupt
            ==> crate::ptrace::control::answers(p, request),
        request != PtraceRequest::Kill && request != PtraceRequest::Interrupt ==> (
        crate::ptrace::control::answers(p, request) <==> p.ptrace_state.in_ptrace_stop
            && !p.ptrace_state.listening && p.sched_info.state == ProcessState::Stopped),
{
}

/// A task that is interrupted, or notified, has an event stop to come, for which `SIGTRAP`
/// stands; nothing else of it changes. It has to be woken for that from a stop that its tracer
/// only listens for, or that is no tracing stop.
pub proof fn law_event_stop_is_to_come(p: ProcessControlBlock)
    ensures
        p.event_stop_due() == (ProcessControlBlock {
            flags: ProcessFlags { pending_ptrace_stop: true, ..p.flags },
            ptrace_state: PtraceState {
                pending_event_stop: Some(Signal { nr: 5 }),
                ..p.ptrace_state
            },
            ..p
        }),
        p.needs_retrap() <==> p.ptrace_state.listening || !p.ptrace_state.in_ptrace_stop,
{
}

/// A task that its tracer listens for is in no tracing stop that can be waited for. Its tracer
/// can do so only in an event stop of a task that it has seized: the code of the signal of the
/// stop tells the event, and that is a stop.
pub proof fn law_listening(p: ProcessControlBlock)
    ensures
        p.ptrace_state.listened_to() == (PtraceState {
            listening: true,
            in_ptrace_stop: false,
            stop_report_pending: false,
            ..p.ptrace_state
        }),
        p.can_be_listened_to() <==> {
            &&& p.flags.pt_seized
            &&& p.ptrace_state.in_ptrace_stop
            &&& p.ptrace_state.last_siginfo matches Some(info) && match info.code {
                SigCode::Raw(code) => code >> 8 == 128,
                SigCode::User => false,
                SigCode::Kernel => false,
            }
        },
{
    assert(0i32 >> 8i32 != 128i32 && 0x80i32 >> 8i32 != 128i32) by (bit_vector);
}

/// Options, the signal of a stop and a message replace what was there, and nothing else.
pub proof fn law_what_a_tracer_may_replace(
    state: PtraceState,
    options: PtraceOptions,
    info: Option<SigInfo>,
    message: usize,
)
    ensures
        state.with_options(options) == (PtraceState { options, ..state }),
        state.with_last_siginfo(info) == (PtraceState { last_siginfo: info, ..state }),
        state.with_event_message(message) == (PtraceState { event_message: message, ..state }),
{
}

/// What is left of a task that nobody traces any more: no tracer, no work for one, no mark of a
/// stop, and nothing of the stop itself.
proof fn lemma_left_by_tracer(p: ProcessControlBlock, q: ProcessControlBlock)
    requires
        q == p.untraced().single_step_disabled().stop_ended() || (q == p.untraced().stop_ended()
            && !p.is_in_tracing_stop()),
    ensures
        q.ptracer is None,
        q.flags == (ProcessFlags {
            ptraced: false,
            trace_syscall: false,
            trace_singlestep: false,
            trace_sysemu: false,
            pt_seized: false,
            ptrace_event_stop: false,
            pending_ptrace_stop: false,
            trapping: false,
            ..p.flags
        }),
        q.ptrace_state == (PtraceState {
            stop_report_pending: false,
            in_ptrace_stop: false,
            listening: false,
            pending_event_stop: None,
            exit_code: 0,
            forced_trap_flag: q.ptrace_state.forced_trap_flag,
            ..p.ptrace_state
        }),
        q == (ProcessControlBlock {
            ptracer: None,
            flags: q.flags,
            ptrace_state: q.ptrace_state,
            kernel_frame: q.kernel_frame,
            syscall_frame: q.syscall_frame,
            ..p
        }),
{
}

/// A task that its tracer lets go has no tracer, no work for one and nothing of its stop left,
/// and the trap flag that the tracer had set in its registers is gone. The list of the tracer
/// does not name it any more. It is woken exactly if it was stopped for its tracer and its
/// process is not stopped as a whole. No other task changes.
#[verifier::rlimit(40)]
pub proof fn law_task_is_let_go(pm: ProcessManagerView, tracee: TaskId)
    requires
        pm.wf(),
        pm.has(tracee),
    ensures
        ({
            let after = crate::ptrace::relation::let_go(pm, tracee);
            let p = pm.task(tracee);
            let q = after.task(tracee);
            let on_syscall_stack = p.ptrace_state.stop_frame_on_syscall_stack;
            let forced = p.ptrace_state.forced_trap_flag;
            &&& q.ptracer is None
            &&& q.flags == (ProcessFlags {
                ptraced: false,
                trace_syscall: false,
                trace_singlestep: false,
                trace_sysemu: false,
                pt_seized: false,
                ptrace_event_stop: false,
                pending_ptrace_stop: false,
                trapping: false,
                ..p.flags
            })
            &&& q.ptrace_state == (PtraceState {
                stop_report_pending: false,
                in_ptrace_stop: false,
                listening: false,
                pending_event_stop: None,
                exit_code: 0,
                forced_trap_flag: false,
                ..p.ptrace_state
            })
            &&& q.kernel_frame == if forced && !on_syscall_stack {
                TrapFrame { rflags: p.kernel_frame.rflags & !0x100, ..p.kernel_frame }
            } else {
                p.kernel_frame
            }
            &&& q.syscall_frame == if forced && on_syscall_stack {
                TrapFrame { rflags: p.syscall_frame.rflags & !0x100, ..p.syscall_frame }
            } else {
                p.syscall_frame
            }
            &&& q.sched_info == p.sched_info
            &&& after.actions == if p.sched_info.state == ProcessState::Stopped && (
            p.ptrace_state.in_ptrace_stop || p.ptrace_state.listening)
                && !pm.sighands[p.sighand as int].stop_stopped && p.alive {
                pm.actions.push(Action::WakeupStop(tracee))
            } else {
                pm.actions
            }
            &&& p.ptracer matches Some(tracer) ==> tracer < pm.tasks.len()
                && pm.tasks[tracer as int].alive ==> !after.ptraced[tracer as int].contains(
                p.raw_pid,
            )
            &&& forall|t: TaskId|
                pm.has(t) && t != tracee ==> #[trigger] after.tasks[t as int] == pm.tasks[t as int]
        }),
{
    lemma_left_by_tracer(pm.task(tracee), crate::ptrace::relation::let_go(pm, tracee).task(tracee));
    if pm.upgrade(pm.task(tracee).ptracer) is Some {
        let tracer = pm.upgrade(pm.task(tracee).ptracer)->Some_0;
        crate::ptrace::relation::lemma_pids_without(
            pm.ptraced[tracer as int],
            pm.task(tracee).raw_pid,
        );
    }
}

/// A task that is about to be detached goes on with the signal that was given, has no event stop
/// to come and none to report.
pub proof fn law_detached_task_goes_on_with_the_signal(p: ProcessControlBlock, signal: Signal)
    ensures
        p.detaching(signal) == (ProcessControlBlock {
            flags: ProcessFlags { ptrace_event_stop: false, ..p.flags },
            ptrace_state: PtraceState {
                injected_signal: signal,
                pending_event_stop: None,
                stop_report_pending: false,
                ..p.ptrace_state
            },
            ..p
        }),
{
}

/// A task whose tracer exits has no tracer, no work for one and nothing of its stop left. It is
/// sent `SIGKILL` exactly if the tracer had asked for that. If it was stopped for its tracer it
/// loses the trap flag that the tracer had set, and is woken, unless its process is stopped as a
/// whole: then its parent has to hear of that. The parent that waits for it, if there is one,
/// looks again last.
#[verifier::rlimit(40)]
pub proof fn law_task_whose_tracer_exits(pm: ProcessManagerView, tracee: TaskId)
    requires
        pm.wf(),
        pm.has(tracee),
    ensures
        ({
            let after = crate::ptrace::relation::tracer_gone(pm, tracee);
            let p = pm.task(tracee);
            let q = after.task(tracee);
            let hand = pm.sighands[p.sighand as int];
            let stopped = p.sched_info.state == ProcessState::Stopped && (
            p.ptrace_state.in_ptrace_stop || p.ptrace_state.listening);
            let killed = if p.ptrace_state.options.bits & 0x10_0000 == 0x10_0000 {
                pm.actions.push(
                    Action::SendSignal {
                        signal: Signal { nr: 9 },
                        info: None,
                        to: tracee,
                        scope: PidType::PID,
                    },
                )
            } else {
                pm.actions
            };
            let woken = if stopped && !hand.stop_stopped {
                killed.push(Action::WakeupStop(tracee))
            } else {
                killed
            };
            &&& q.ptracer is None
            &&& q.flags == (ProcessFlags {
                ptraced: false,
                trace_syscall: false,
                trace_singlestep: false,
                trace_sysemu: false,
                pt_seized: false,
                ptrace_event_stop: false,
                pending_ptrace_stop: false,
                trapping: false,
                ..p.flags
            })
            &&& !q.ptrace_state.in_ptrace_stop
            &&& !q.ptrace_state.listening
            &&& !q.ptrace_state.stop_report_pending
            &&& q.ptrace_state.pending_event_stop is None
            &&& q.ptrace_state.exit_code == 0
            &&& q.ptrace_state.forced_trap_flag == (p.ptrace_state.forced_trap_flag && !stopped)
            &&& q.kernel_frame == if stopped && p.ptrace_state.forced_trap_flag
                && !p.ptrace_state.stop_frame_on_syscall_stack {
                TrapFrame { rflags: p.kernel_frame.rflags & !0x100, ..p.kernel_frame }
            } else {
                p.kernel_frame
            }
            &&& q.syscall_frame == if stopped && p.ptrace_state.forced_trap_flag
                && p.ptrace_state.stop_frame_on_syscall_stack {
                TrapFrame { rflags: p.syscall_frame.rflags & !0x100, ..p.syscall_frame }
            } else {
                p.syscall_frame
            }
            &&& q.sched_info == p.sched_info
            &&& after.sighands[p.sighand as int].cld_stopped == (hand.cld_stopped || (stopped
                && hand.stop_stopped))
            &&& match p.real_parent {
                Some(parent) if parent < pm.tasks.len() && pm.tasks[parent as int].alive =>
                    after.actions == woken.push(Action::WakeWaitParent(parent)),
                _ => after.actions == woken,
            }
        }),
{
    let p = pm.task(tracee);
    lemma_left_by_tracer(p, p.released());
    assert(crate::ptrace::relation::tracer_gone(pm, tracee).task(tracee) == p.released());
}

/// A task that is taken from its tracer without being let go has no tracer and is not marked; the
/// tracer that waits looks again, and so does the parent unless it is the tracer.
pub proof fn law_unlinking_wakes_tracer_and_parent(pm: ProcessManagerView, tracee: TaskId)
    requires
        pm.wf(),
        pm.has(tracee),
    ensures
        ({
            let after = crate::ptrace::relation::unlinked(pm, tracee);
            let p = pm.task(tracee);
            let traced = p.ptracer matches Some(t) && t < pm.tasks.len()
                && pm.tasks[t as int].alive;
            let child = p.real_parent matches Some(t) && t < pm.tasks.len()
                && pm.tasks[t as int].alive;
            let told = if traced {
                pm.actions.push(Action::WakeWaitParent(p.ptracer->Some_0))
            } else {
                pm.actions
            };
            &&& after.tasks[tracee as int] == (ProcessControlBlock {
                ptracer: None,
                flags: ProcessFlags { ptraced: false, ..p.flags },
                ..p
            })
            &&& after.actions == if child && !(traced && p.ptracer == p.real_parent) {
                told.push(Action::WakeWaitParent(p.real_parent->Some_0))
            } else {
                told
            }
        }),
{
}

/// A waiter may wait for a task exactly if the tracer of the task is the waiter itself, or, unless
/// it waits for its own only, a thread of the same process, and has the task in its list.
pub proof fn law_who_waits_for_a_tracee(
    pm: ProcessManagerView,
    tracee: TaskId,
    waiter: TaskId,
    options: WaitOption,
)
    ensures
        crate::ptrace::relation::waits_for_tracee(pm, tracee, waiter, options) <==> match pm.task(
            tracee,
        ).ptracer {
            Some(t) => {
                &&& t < pm.tasks.len()
                &&& pm.tasks[t as int].alive
                &&& t == waiter || (options.bits & 0x2000_0000 != 0x2000_0000
                    && pm.tasks[t as int].tgid == pm.tasks[waiter as int].tgid)
                &&& pm.ptraced[t as int].contains(pm.tasks[tracee as int].raw_pid)
            },
            None => false,
        },
{
}

/// A task that asks to be traced is traced by the thread that forked it if that belongs to its
/// parent, and otherwise by the parent. It cannot be if there is no parent, if that is exiting,
/// or if it has a tracer.
pub proof fn law_who_traces_one_that_asks(pm: ProcessManagerView, parent: TaskId)
    requires
        pm.task(pm.current).real_parent == Some(parent),
        pm.has(parent),
        pm.task(parent).alive,
    ensures
        ({
            let p = pm.task(pm.current);
            let forker = p.fork_parent;
            let tracer = if forker matches Some(t) && t < pm.tasks.len()
                && pm.tasks[t as int].alive && pm.tasks[t as int].tgid == pm.task(parent).tgid {
                forker->Some_0
            } else {
                parent
            };
            let traced = p.ptracer matches Some(t) && t < pm.tasks.len()
                && pm.tasks[t as int].alive;
            &&& crate::ptrace::relation::traceme_parent(pm, pm.current) == Some(tracer)
            &&& crate::ptrace::relation::can_traceme(pm) <==> !traced
                && !pm.tasks[tracer as int].flags.exiting
        }),
{
}

/// An orphan cannot ask to be traced.
pub proof fn law_nobody_traces_an_orphan(pm: ProcessManagerView)
    requires
        pm.task(pm.current).real_parent matches Some(t) ==> !(t < pm.tasks.len()
            && pm.tasks[t as int].alive),
    ensures
        !crate::ptrace::relation::can_traceme(pm),
{
}

/// A stop is reported to a waiter if it has not been reported and is not merely listened for,
/// with its code. Looking at it in order to take it changes only that.
pub proof fn law_what_a_waiter_learns(state: PtraceState, consume: bool)
    ensures
        state.stop_report() is Some <==> state.stop_report_pending && !state.listening,
        state.stop_report() matches Some(code) ==> code == state.exit_code as i32,
        state.after_report(consume) == (PtraceState {
            stop_report_pending: state.stop_report_pending && !(consume && !state.listening),
            ..state
        }),
{
}

/// A tracer is told of an event exactly if the option for it is set: the bit of the event. Stops
/// of their own need no option.
pub proof fn law_options_ask_for_events(p: ProcessControlBlock, event: PtraceEvent)
    ensures
        p.ptrace_event_enabled(event) <==> {
            let bits = p.ptrace_state.options.bits;
            match event {
                PtraceEvent::Fork => bits & 0x02 == 0x02,
                PtraceEvent::VFork => bits & 0x04 == 0x04,
                PtraceEvent::Clone => bits & 0x08 == 0x08,
                PtraceEvent::Exec => bits & 0x10 == 0x10,
                PtraceEvent::VForkDone => bits & 0x20 == 0x20,
                PtraceEvent::Exit => bits & 0x40 == 0x40,
                PtraceEvent::Seccomp => bits & 0x80 == 0x80,
                PtraceEvent::Stop => false,
            }
        },
{
}

/// The numbers by which user space names the requests and the events.
pub proof fn law_numbers_that_user_space_knows(request: PtraceRequest, event: PtraceEvent)
    ensures
        request == PtraceRequest::Traceme ==> request.number() == 0,
        request == PtraceRequest::Peektext ==> request.number() == 1,
        request == PtraceRequest::Peekdata ==> request.number() == 2,
        request == PtraceRequest::Peekuser ==> request.number() == 3,
        request == PtraceRequest::Poketext ==> request.number() == 4,
        request == PtraceRequest::Pokedata ==> request.number() == 5,
        request == PtraceRequest::Pokeuser ==> request.number() == 6,
        request == PtraceRequest::Cont ==> request.number() == 7,
        request == PtraceRequest::Kill ==> request.number() == 8,
        request == PtraceRequest::Singlestep ==> request.number() == 9,
        request == PtraceRequest::Getregs ==> request.number() == 12,
        request == PtraceRequest::Setregs ==> request.number() == 13,
        request == PtraceRequest::Attach ==> request.number() == 16,
        request == PtraceRequest::Detach ==> request.number() == 17,
        request == PtraceRequest::Syscall ==> request.number() == 24,
        request == PtraceRequest::Sysemu ==> request.number() == 31,
        request == PtraceRequest::SysemuSinglestep ==> request.number() == 32,
        request == PtraceRequest::Setoptions ==> request.number() == 0x4200,
        request == PtraceRequest::Geteventmsg ==> request.number() == 0x4201,
        request == PtraceRequest::Getsiginfo ==> request.number() == 0x4202,
        request == PtraceRequest::Setsiginfo ==> request.number() == 0x4203,
        request == PtraceRequest::Getregset ==> request.number() == 0x4204,
        request == PtraceRequest::Setregset ==> request.number() == 0x4205,
        request == PtraceRequest::Seize ==> request.number() == 0x4206,
        request == PtraceRequest::Interrupt ==> request.number() == 0x4207,
        request == PtraceRequest::Listen ==> request.number() == 0x4208,
        request == PtraceRequest::Getsigmask ==> request.number() == 0x420a,
        request == PtraceRequest::Setsigmask ==> request.number() == 0x420b,
        request == PtraceRequest::Getsyscallinfo ==> request.number() == 0x420e,
        event == PtraceEvent::Fork ==> event.number() == 1,
        event == PtraceEvent::VFork ==> event.number() == 2,
        event == PtraceEvent::Clone ==> event.number() == 3,
        event == PtraceEvent::Exec ==> event.number() == 4,
        event == PtraceEvent::VForkDone ==> event.number() == 5,
        event == PtraceEvent::Exit ==> event.number() == 6,
        event == PtraceEvent::Seccomp ==> event.number() == 7,
        event == PtraceEvent::Stop ==> event.number() == 128,
{
}

/// A task is traced by the one that it names as its tracer, as long as that is there.
pub proof fn law_who_is_the_tracer(pm: ProcessManagerView, tracee: TaskId, tracer: TaskId)
    ensures
        crate::ptrace::relation::is_tracer_of(pm, tracee, tracer) <==> pm.task(tracee).ptracer
            == Some(tracer) && tracer < pm.tasks.len() && pm.tasks[tracer as int].alive,
        pm.is_ptraced(tracee) <==> pm.task(tracee).flags.ptraced && (pm.task(
            tracee,
        ).ptracer matches Some(t) && t < pm.tasks.len() && pm.tasks[t as int].alive),
{
}

/// When a tracer exits, each task in its list is let go in turn that is found by its number and
/// still traced by it; others are left alone.
pub proof fn law_tracees_are_let_go_in_turn(
    pm: ProcessManagerView,
    tracer: TaskId,
    pids: Seq<RawPid>,
    pid: RawPid,
)
    ensures
        crate::ptrace::relation::tracees_let_go(pm, tracer, Seq::empty()) == pm,
        ({
            let before = crate::ptrace::relation::tracees_let_go(pm, tracer, pids);
            let after = crate::ptrace::relation::tracees_let_go(pm, tracer, pids.push(pid));
            match before.find(pid) {
                Some(t) if before.task(t).ptracer == Some(tracer) && tracer < before.tasks.len()
                    && before.tasks[tracer as int].alive => after
                    == crate::ptrace::relation::tracer_gone(before, t),
                _ => after == before,
            }
        }),
{
    assert(pids.push(pid).drop_last() =~= pids);
}

/// A change of a number in the list of a tracer is made where the old number is first, and
/// nowhere else.
pub proof fn law_number_changes_in_one_place(
    pm: ProcessManagerView,
    t: TaskId,
    old_pid: RawPid,
    new_pid: RawPid,
    update: crate::ptrace::relation::TraceePidUpdate,
)
    requires
        pm.wf(),
        crate::ptrace::relation::is_update_for(pm, t, old_pid, new_pid, Some(update)),
    ensures
        pm.task(t).ptracer == Some(update.tracer),
        ({
            let list = pm.ptraced[update.tracer as int];
            let after = crate::ptrace::relation::update_applied(pm, Some(update));
            &&& update.index < list.len()
            &&& list[update.index as int] == old_pid
            &&& forall|k: int| 0 <= k < update.index ==> list[k] != old_pid
            &&& after.ptraced[update.tracer as int] == list.update(update.index as int, new_pid)
            &&& after.tasks == pm.tasks
            &&& forall|u: int|
                0 <= u < pm.ptraced.len() && u != update.tracer ==> #[trigger] after.ptraced[u]
                    == pm.ptraced[u]
        }),
{
}

/// Taking a number out of a list leaves the others in their order.
pub proof fn law_list_keeps_its_order(pids: Seq<RawPid>, last: RawPid, pid: RawPid)
    ensures
        crate::ptrace::relation::pids_without(Seq::empty(), pid).len() == 0,
        last != pid ==> crate::ptrace::relation::pids_without(pids.push(last), pid)
            == crate::ptrace::relation::pids_without(pids, pid).push(last),
        last == pid ==> crate::ptrace::relation::pids_without(pids.push(last), pid)
            == crate::ptrace::relation::pids_without(pids, pid),
{
    assert(pids.push(last).drop_last() =~= pids);
}

} // verus!
