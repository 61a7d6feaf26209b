use dragonos_kernel::error::SystemError;
use dragonos_kernel::interrupt::trap_frame::{KernelStack, TrapFrame};
use dragonos_kernel::libs::spinlock::IrqFlagsGuard;
use dragonos_kernel::process::action::Action;
use dragonos_kernel::process::manager::ProcessManager;
use dragonos_kernel::process::pcb::{Cred, ExitState, ProcessControlBlock, ProcessFlags};
use dragonos_kernel::process::signal::{
    PidType, RawPid, SigChildCode, SigCode, SigHand, SigInfo, SigSet, SigType, SigchldAction, Signal,
};
use dragonos_kernel::ptrace::control::AttachStep;
use dragonos_kernel::ptrace::regs::UserRegsStruct;
use dragonos_kernel::ptrace::relation::{
    WaitOption, exit_ptrace, is_ptraced, is_wait_tracee_of, ptracer_of, tracees_of, traceme_current, unlink_tracee,
};
use dragonos_kernel::ptrace::report::{
    SignalStep, ptrace_signal, ptrace_signal_delivery, signal_sender,
};
use dragonos_kernel::ptrace::state::PtraceState;
use dragonos_kernel::ptrace::stop::StopStep;
use dragonos_kernel::ptrace::syscall_info::{
    PtraceSyscallInfo, PtraceSyscallInfoData, PtraceSyscallInfoOp, syscall_retval_is_error,
};
use dragonos_kernel::ptrace::types::{PtraceEvent, PtraceOptions, PtraceRequest};
use dragonos_kernel::sched::entity::{
    FairSchedEntity, ProcessSchedulerInfo, ProcessState, SchedInfo,
};
use dragonos_kernel::sched::load_weight::LoadWeight;
use dragonos_kernel::sched::policy::{OnRq, SchedPolicy};
use dragonos_kernel::smp::cpu::{CpuMask, ProcessorId};

fn flags() -> ProcessFlags {
    ProcessFlags {
        kthread: false,
        need_schedule: false,
        need_migrate: false,
        in_iowait: false,
        sched_contributes_to_load: false,
        exiting: false,
        need_rseq: false,
        ptraced: false,
        trace_syscall: false,
        trace_singlestep: false,
        trace_sysemu: false,
        pt_seized: false,
        ptrace_event_stop: false,
        pending_ptrace_stop: false,
        trapping: false,
    }
}

/// A task of the fair class that can run on the first two processors.
fn task(pid: usize) -> ProcessControlBlock {
    let mut cpus_allowed = CpuMask::new();
    cpus_allowed.set(ProcessorId::new(0), true);
    cpus_allowed.set(ProcessorId::new(1), true);
    ProcessControlBlock {
        raw_pid: RawPid { data: pid },
        vpid: RawPid { data: pid },
        tgid: RawPid { data: pid },
        hashed: true,
        alive: true,
        flags: flags(),
        sched_info: ProcessSchedulerInfo {
            policy: SchedPolicy::CFS,
            prio: 120,
            static_prio: 120,
            normal_prio: 120,
            rt_priority: 0,
            cpu: ProcessorId::new(0),
            on_cpu: None,
            on_rq: OnRq::Unqueued,
            state: ProcessState::Runnable,
            mark_sleep: false,
            wake_kill: false,
            migrate_to: None,
            cpus_allowed,
            sched_stat: SchedInfo { last_queued: 0, run_delay: 0 },
            sched_entity: FairSchedEntity {
                load: LoadWeight { weight: 1024, inv_weight: 0 },
                util_avg: 0,
                last_update_time: 0,
                cfs_rq: ProcessorId::new(0),
                cfs_group: None,
                parent: None,
            },
        },
        exit_state: ExitState::Running,
        ptrace_state: PtraceState::new(),
        ptracer: None,
        real_parent: None,
        fork_parent: None,
        group_leader: None,
        cred: Cred { uid: 0, euid: 0, suid: 0, gid: 0, egid: 0, sgid: 0, cap_sys_ptrace: false },
        dumpable: 1,
        sig_blocked: SigSet { bits: 0 },
        sig_pending: SigSet { bits: 0 },
        has_pending_signal: false,
        sighand: pid - 1,
        kernel_stack: KernelStack { start: 0x1000, max: 0x5000 },
        syscall_stack: KernelStack { start: 0x1000_0000, max: 0x1000_4000 },
        kernel_rsp: 0x1100,
        kernel_frame: TrapFrame::new(),
        syscall_frame: TrapFrame::new(),
        user_vm: None,
        nvcsw: 0,
        nivcsw: 0,
        rseq_registered: false,
    }
}

/// The tasks with the numbers 1 to `n`; the first one runs on the first of two processors.
fn manager(n: usize) -> ProcessManager {
    let mut tasks = Vec::new();
    let mut ptraced = Vec::new();
    let mut sighands = Vec::new();
    for pid in 1..=n {
        tasks.push(task(pid));
        ptraced.push(Vec::new());
        sighands.push(SigHand {
            stop_stopped: false,
            cld_stopped: false,
            stop_signal: Signal { nr: Signal::INVALID },
            sigchld: Some(SigchldAction { ignore: false, no_cld_stop: false }),
        });
    }
    ProcessManager {
        tasks,
        ptraced,
        sighands,
        preempt_count: vec![0; 128],
        init_done: true,
        cpu: ProcessorId::new(0),
        current: 0,
        irq_enabled: true,
        bh_disabled: 0,
        nr_running: 0,
        actions: Vec::new(),
    }
}

/// The second task is traced by the first one and stands still.
fn stopped_tracee(info: Option<SigInfo>) -> ProcessManager {
    let mut pm = manager(3);
    assert_eq!(ProcessControlBlock::ptrace_seize(&mut pm, 1, 0, PtraceOptions { bits: 0 }), Ok(0));
    let step =
        ProcessControlBlock::ptrace_stop(&mut pm, 1, 5, SigChildCode::Trapped, info);
    assert_eq!(
        step,
        StopStep::Stopped { participate: None, irq_guard: IrqFlagsGuard { was_enabled: true } }
    );
    pm.actions.clear();
    pm
}

fn info(nr: u32) -> SigInfo {
    SigInfo {
        signo: Signal { nr },
        errno: 0,
        code: SigCode::Kernel,
        kind: SigType::Kill { pid: RawPid { data: 7 }, uid: 8 },
    }
}

#[test]
fn request_numbers() {
    assert_eq!(PtraceRequest::try_from(0), Ok(PtraceRequest::Traceme));
    assert_eq!(PtraceRequest::try_from(24), Ok(PtraceRequest::Syscall));
    assert_eq!(PtraceRequest::try_from(0x4206), Ok(PtraceRequest::Seize));
    assert_eq!(PtraceRequest::try_from(0x420e), Ok(PtraceRequest::Getsyscallinfo));
    assert_eq!(PtraceRequest::try_from(10), Err(SystemError::EINVAL));
    assert_eq!(PtraceRequest::try_from(0x4209), Err(SystemError::EINVAL));
}

#[test]
fn event_numbers() {
    assert_eq!(PtraceEvent::Fork.number(), 1);
    assert_eq!(PtraceEvent::Seccomp.number(), 7);
    assert_eq!(PtraceEvent::Stop.number(), 128);
}

#[test]
fn linked_task_is_traced_until_it_is_unlinked() {
    let mut pm = manager(2);
    assert_eq!(ProcessControlBlock::ptrace_link(&mut pm, 1, 0), Ok(()));
    assert!(is_ptraced(&pm, 1));
    assert_eq!(ptracer_of(&pm, 1), Some(0));
    assert_eq!(tracees_of(&pm, 0), vec![RawPid { data: 2 }]);
    assert!(ProcessControlBlock::is_traced_by(&pm, 1, 0));
    assert!(!ProcessControlBlock::is_traced_by(&pm, 1, 1));
    pm.tasks[1].alive = false;
    assert!(ProcessControlBlock::is_traced_by(&pm, 1, 0));
    pm.tasks[1].alive = true;
    assert!(ProcessControlBlock::is_traced(&pm, 1));
    assert_eq!(
        ProcessControlBlock::ptrace_link(&mut pm, 1, 0),
        Err(SystemError::EPERM)
    );
    assert_eq!(ProcessControlBlock::ptrace_unlink(&mut pm, 1), Ok(()));
    assert!(!is_ptraced(&pm, 1));
    assert_eq!(ptracer_of(&pm, 1), None);
    assert!(tracees_of(&pm, 0).is_empty());
}

#[test]
fn unlink_tracee_wakes_who_waits() {
    let mut pm = manager(3);
    pm.tasks[1].real_parent = Some(2);
    assert_eq!(ProcessControlBlock::ptrace_link(&mut pm, 1, 0), Ok(()));
    unlink_tracee(&mut pm, 1);
    assert!(!is_ptraced(&pm, 1));
    assert_eq!(pm.actions, vec![Action::WakeWaitParent(0), Action::WakeWaitParent(2)]);
}

#[test]
fn permission_to_trace() {
    let tracer = task(1);
    let mut tracee = task(2);
    assert!(tracer.has_permission_to_trace(&tracee));
    tracee.cred.suid = 5;
    assert!(!tracer.has_permission_to_trace(&tracee));
    tracee.cred.suid = 0;
    tracee.dumpable = 0;
    assert!(!tracer.has_permission_to_trace(&tracee));
    tracee.tgid = tracer.tgid;
    assert!(tracer.has_permission_to_trace(&tracee));
    tracee.tgid = RawPid { data: 2 };
    let mut root = task(3);
    root.cred.cap_sys_ptrace = true;
    assert!(root.has_permission_to_trace(&tracee));
}

#[test]
fn traceme_makes_the_parent_the_tracer() {
    let mut pm = manager(2);
    pm.current = 1;
    assert_eq!(traceme_current(&mut pm), Err(SystemError::EPERM));
    pm.tasks[1].real_parent = Some(0);
    assert_eq!(traceme_current(&mut pm), Ok(()));
    assert_eq!(ptracer_of(&pm, 1), Some(0));
    assert_eq!(traceme_current(&mut pm), Err(SystemError::EPERM));
}

#[test]
fn exiting_tracer_frees_every_tracee() {
    let mut pm = manager(4);
    assert_eq!(ProcessControlBlock::ptrace_seize(&mut pm, 1, 0, PtraceOptions { bits: 0 }), Ok(0));
    assert_eq!(
        ProcessControlBlock::ptrace_seize(
            &mut pm,
            2,
            0,
            PtraceOptions { bits: PtraceOptions::EXITKILL }
        ),
        Ok(0)
    );
    let _ = ProcessControlBlock::ptrace_stop(&mut pm, 1, 5, SigChildCode::Trapped, None);
    pm.actions.clear();
    exit_ptrace(&mut pm, 0);
    assert!(!is_ptraced(&pm, 1));
    assert!(!is_ptraced(&pm, 2));
    assert!(tracees_of(&pm, 0).is_empty());
    assert_eq!(
        pm.actions,
        vec![
            Action::WakeupStop(1),
            Action::SendSignal {
                signal: Signal { nr: Signal::SIGKILL },
                info: None,
                to: 2,
                scope: PidType::PID,
            },
        ]
    );
}

#[test]
fn exiting_tracer_leaves_a_stopped_process_stopped() {
    let mut pm = stopped_tracee(None);
    pm.sighands[1].stop_stopped = true;
    exit_ptrace(&mut pm, 0);
    assert!(pm.sighands[1].cld_stopped);
    assert!(pm.actions.is_empty());
    assert_eq!(pm.tasks[1].sched_info.state, ProcessState::Stopped);
}

#[test]
fn waiting_for_a_tracee_of_another_thread() {
    let mut pm = manager(3);
    pm.tasks[2].tgid = RawPid { data: 1 };
    assert_eq!(ProcessControlBlock::ptrace_link(&mut pm, 1, 0), Ok(()));
    let any = WaitOption { bits: 0 };
    let own = WaitOption { bits: WaitOption::WNOTHREAD };
    assert!(is_wait_tracee_of(&pm, 1, 0, any));
    assert!(is_wait_tracee_of(&pm, 1, 0, own));
    assert!(is_wait_tracee_of(&pm, 1, 2, any));
    assert!(!is_wait_tracee_of(&pm, 1, 2, own));
}

#[test]
fn exchanged_numbers_are_exchanged_in_the_lists() {
    let mut pm = manager(4);
    assert_eq!(ProcessControlBlock::ptrace_link(&mut pm, 1, 0), Ok(()));
    assert_eq!(ProcessControlBlock::ptrace_link(&mut pm, 2, 3), Ok(()));
    let plan = dragonos_kernel::ptrace::relation::prepare_tracee_pid_exchange_locked(
        &pm,
        1,
        2,
        RawPid { data: 2 },
        RawPid { data: 3 },
    );
    dragonos_kernel::ptrace::relation::commit_tracee_pid_exchange_locked(&mut pm, plan);
    assert_eq!(tracees_of(&pm, 0), vec![RawPid { data: 3 }]);
    assert_eq!(tracees_of(&pm, 3), vec![RawPid { data: 2 }]);
}

#[test]
fn attach_sends_a_stop_to_a_running_task() {
    let mut pm = manager(2);
    let step = ProcessControlBlock::ptrace_attach(&mut pm, 1, 0);
    match step {
        AttachStep::SendStop(info) => {
            assert_eq!(info.signo, Signal { nr: Signal::SIGSTOP });
            assert_eq!(info.code, SigCode::Kernel);
        }
        _ => panic!("no stop was asked for"),
    }
    assert!(is_ptraced(&pm, 1));
    let res = ProcessControlBlock::ptrace_attach_sent(&mut pm, 1, Err(SystemError::ESRCH));
    assert_eq!(res, Err(SystemError::ESRCH));
    assert!(!is_ptraced(&pm, 1));
}

#[test]
fn attach_takes_over_a_stopped_task() {
    let mut pm = manager(2);
    pm.tasks[1].sched_info.state = ProcessState::Stopped;
    pm.sighands[1].stop_signal = Signal { nr: Signal::SIGSTOP };
    let step = ProcessControlBlock::ptrace_attach(&mut pm, 1, 0);
    assert!(matches!(step, AttachStep::Done(Ok(0))));
    assert_eq!(pm.tasks[1].ptrace_state.exit_code, 19);
    assert_eq!(
        ProcessControlBlock::ptrace_check_attach(&pm, 1, PtraceRequest::Cont),
        Ok(())
    );
    assert_eq!(
        pm.actions,
        vec![
            Action::WakeTrapWaiters(1),
            Action::WakeAllWaiters(0),
            Action::WaitTrappingCleared(1),
        ]
    );
}

#[test]
fn attach_is_refused() {
    let mut pm = manager(2);
    pm.tasks[1].tgid = RawPid { data: 1 };
    assert!(matches!(
        ProcessControlBlock::ptrace_attach(&mut pm, 1, 0),
        AttachStep::Done(Err(SystemError::EPERM))
    ));
    pm.tasks[1].tgid = RawPid { data: 2 };
    pm.tasks[1].flags.kthread = true;
    assert!(matches!(
        ProcessControlBlock::ptrace_attach(&mut pm, 1, 0),
        AttachStep::Done(Err(SystemError::EPERM))
    ));
    assert_eq!(
        ProcessControlBlock::ptrace_seize(&mut pm, 1, 0, PtraceOptions { bits: 0 }),
        Err(SystemError::EPERM)
    );
}

#[test]
fn detached_task_goes_on() {
    let mut pm = stopped_tracee(None);
    assert_eq!(
        ProcessControlBlock::ptrace_detach(&mut pm, 1, Some(Signal { nr: Signal::INVALID })),
        Err(SystemError::EIO)
    );
    assert_eq!(ProcessControlBlock::ptrace_detach(&mut pm, 2, None), Err(SystemError::EPERM));
    assert_eq!(ProcessControlBlock::ptrace_detach(&mut pm, 1, Some(Signal { nr: 10 })), Ok(0));
    assert!(!is_ptraced(&pm, 1));
    assert_eq!(pm.actions, vec![Action::WakeupStop(1)]);
}

#[test]
fn only_a_stopped_tracee_answers() {
    let mut pm = manager(2);
    assert_eq!(
        ProcessControlBlock::ptrace_check_attach(&pm, 1, PtraceRequest::Kill),
        Err(SystemError::ESRCH)
    );
    assert_eq!(ProcessControlBlock::ptrace_seize(&mut pm, 1, 0, PtraceOptions { bits: 0 }), Ok(0));
    assert_eq!(
        ProcessControlBlock::ptrace_check_attach(&pm, 1, PtraceRequest::Kill),
        Ok(())
    );
    assert_eq!(
        ProcessControlBlock::ptrace_check_attach(&pm, 1, PtraceRequest::Getregs),
        Err(SystemError::ESRCH)
    );
    let pm = stopped_tracee(None);
    assert_eq!(
        ProcessControlBlock::ptrace_check_attach(&pm, 1, PtraceRequest::Getregs),
        Ok(())
    );
}

#[test]
fn options_are_set_but_filters_cannot_be_suspended() {
    let mut pm = stopped_tracee(None);
    let fork = PtraceOptions { bits: PtraceOptions::TRACEFORK };
    assert_eq!(ProcessControlBlock::set_ptrace_options(&mut pm, 1, fork), Ok(()));
    assert!(pm.tasks[1].ptrace_event_enabled(PtraceEvent::Fork));
    assert!(!pm.tasks[1].ptrace_event_enabled(PtraceEvent::Clone));
    assert!(!pm.tasks[1].ptrace_event_enabled(PtraceEvent::Stop));
    let suspend = PtraceOptions { bits: PtraceOptions::SUSPEND_SECCOMP };
    assert_eq!(
        ProcessControlBlock::set_ptrace_options(&mut pm, 1, suspend),
        Err(SystemError::EPERM)
    );
}

#[test]
fn replaced_signal_is_what_the_task_goes_on_with() {
    let mut pm = stopped_tracee(Some(info(10)));
    assert_eq!(pm.tasks[1].ptrace_get_siginfo(), Ok(info(10)));
    assert_eq!(ProcessControlBlock::ptrace_set_siginfo(&mut pm, 1, info(12)), Ok(()));
    assert_eq!(
        ProcessControlBlock::ptrace_resume(&mut pm, 1, PtraceRequest::Cont, Some(Signal { nr: 12 })),
        Ok(0)
    );
    assert_eq!(pm.actions, vec![Action::WakeupStop(1)]);
    let mut told = Some(info(10));
    let guard = IrqFlagsGuard { was_enabled: true };
    let signr = ProcessControlBlock::ptrace_stop_resume(&mut pm, 1, &mut told, guard);
    assert_eq!(signr, 12);
    assert_eq!(told, Some(info(12)));
    assert!(pm.irq_enabled);
    assert_eq!(pm.tasks[1].ptrace_get_siginfo(), Err(SystemError::EINVAL));
    assert_eq!(pm.actions[1], Action::RecalcSigpending(1));
}

#[test]
fn siginfo_needs_a_stop() {
    let mut pm = manager(2);
    assert_eq!(pm.tasks[1].ptrace_get_siginfo(), Err(SystemError::EINVAL));
    assert_eq!(
        ProcessControlBlock::ptrace_set_siginfo(&mut pm, 1, info(9)),
        Err(SystemError::EINVAL)
    );
}

#[test]
fn kill_and_stop_cannot_be_blocked() {
    let mut pm = manager(2);
    ProcessControlBlock::ptrace_set_sigmask(&mut pm, 1, SigSet { bits: u64::MAX });
    let set = pm.tasks[1].ptrace_get_sigmask();
    assert_eq!(set.bits, 0xffff_ffff_fffb_feff);
    assert!(!set.contains(Signal { nr: Signal::SIGKILL }));
    assert!(!set.contains(Signal { nr: Signal::SIGSTOP }));
    assert!(set.contains(Signal { nr: Signal::SIGCHLD }));
}

#[test]
fn resume_is_refused() {
    let mut pm = stopped_tracee(None);
    assert_eq!(
        ProcessControlBlock::ptrace_resume(
            &mut pm,
            1,
            PtraceRequest::Cont,
            Some(Signal { nr: Signal::INVALID })
        ),
        Err(SystemError::EIO)
    );
    assert_eq!(
        ProcessControlBlock::ptrace_resume(&mut pm, 1, PtraceRequest::Getregs, None),
        Err(SystemError::EINVAL)
    );
}

#[test]
fn resumed_task_has_its_work_and_no_stop() {
    let mut pm = stopped_tracee(None);
    let step = PtraceRequest::Singlestep;
    assert_eq!(ProcessControlBlock::ptrace_resume(&mut pm, 1, step, None), Ok(0));
    let p = pm.tasks[1];
    assert!(p.flags.trace_singlestep && !p.flags.trace_syscall && !p.flags.trace_sysemu);
    assert_eq!(p.stop_frame().rflags, 0x100);
    assert!(p.ptrace_state.forced_trap_flag);
    assert!(!p.ptrace_state.in_ptrace_stop);
    assert_eq!(
        ProcessControlBlock::ptrace_check_attach(&pm, 1, PtraceRequest::Getregs),
        Err(SystemError::ESRCH)
    );
    let syscall = PtraceRequest::Syscall;
    assert_eq!(ProcessControlBlock::ptrace_resume(&mut pm, 1, syscall, None), Ok(0));
    let p = pm.tasks[1];
    assert!(!p.flags.trace_singlestep && p.flags.trace_syscall && !p.flags.trace_sysemu);
    assert_eq!(p.stop_frame().rflags, 0);
    let sysemu = PtraceRequest::SysemuSinglestep;
    assert_eq!(ProcessControlBlock::ptrace_resume(&mut pm, 1, sysemu, None), Ok(0));
    let p = pm.tasks[1];
    assert!(p.flags.trace_singlestep && !p.flags.trace_syscall && p.flags.trace_sysemu);
}

#[test]
fn interrupted_task_has_a_stop_to_come() {
    let mut pm = manager(2);
    assert_eq!(ProcessControlBlock::ptrace_interrupt(&mut pm, 1), Err(SystemError::EIO));
    assert_eq!(ProcessControlBlock::ptrace_seize(&mut pm, 1, 0, PtraceOptions { bits: 0 }), Ok(0));
    assert_eq!(ProcessControlBlock::ptrace_interrupt(&mut pm, 1), Ok(()));
    assert!(pm.tasks[1].flags.pending_ptrace_stop);
    assert_eq!(
        pm.tasks[1].ptrace_state.pending_event_stop,
        Some(Signal { nr: Signal::SIGTRAP })
    );
    assert_eq!(pm.actions, vec![Action::Wakeup(1), Action::Kick(1)]);
}

#[test]
fn continued_process_is_told_of_only_when_seized() {
    let mut pm = manager(2);
    ProcessControlBlock::ptrace_trap_notify(&mut pm, 1);
    assert!(!pm.tasks[1].flags.pending_ptrace_stop);
    assert_eq!(ProcessControlBlock::ptrace_seize(&mut pm, 1, 0, PtraceOptions { bits: 0 }), Ok(0));
    ProcessControlBlock::ptrace_trap_notify(&mut pm, 1);
    assert!(pm.tasks[1].flags.pending_ptrace_stop);
    assert_eq!(pm.actions, vec![Action::WakeupStop(1)]);
}

#[test]
fn listened_to_task_is_out_of_sight() {
    let mut pm = manager(2);
    assert_eq!(ProcessControlBlock::ptrace_seize(&mut pm, 1, 0, PtraceOptions { bits: 0 }), Ok(0));
    let stop = Signal { nr: Signal::SIGSTOP };
    let step = ProcessControlBlock::ptrace_event_stop(&mut pm, 1, stop);
    assert_eq!(
        step,
        StopStep::Stopped {
            participate: Some(stop),
            irq_guard: IrqFlagsGuard { was_enabled: true }
        }
    );
    assert_eq!(pm.tasks[1].ptrace_state.exit_code, 0x8013);
    assert_eq!(ProcessControlBlock::ptrace_listen(&mut pm, 1), Ok(()));
    assert_eq!(
        ProcessControlBlock::ptrace_check_attach(&pm, 1, PtraceRequest::Cont),
        Err(SystemError::ESRCH)
    );
    assert_eq!(pm.tasks[1].ptrace_state.consume_stop_report(true), None);
    assert!(pm.sighands[1].stop_stopped);
    assert_eq!(pm.sighands[1].stop_signal, stop);
    assert_eq!(ProcessControlBlock::ptrace_listen(&mut pm, 1), Err(SystemError::EIO));
}

#[test]
fn no_listening_outside_of_an_event_stop() {
    let mut pm = stopped_tracee(Some(info(5)));
    assert_eq!(ProcessControlBlock::ptrace_listen(&mut pm, 1), Err(SystemError::EIO));
}

#[test]
fn stop_is_reported_once() {
    let mut pm = stopped_tracee(None);
    assert_eq!(pm.tasks[1].ptrace_state.consume_stop_report(false), Some(5));
    assert_eq!(pm.tasks[1].ptrace_state.consume_stop_report(true), Some(5));
    assert_eq!(pm.tasks[1].ptrace_state.consume_stop_report(true), None);
}

#[test]
fn untraced_task_goes_on_with_the_code() {
    let mut pm = manager(2);
    let step = ProcessControlBlock::ptrace_stop(&mut pm, 1, 5, SigChildCode::Trapped, None);
    assert_eq!(step, StopStep::Done(5));
    assert!(pm.irq_enabled);
    assert_eq!(pm.tasks[1].sched_info.state, ProcessState::Runnable);
}

#[test]
fn killed_task_does_not_stop() {
    let mut pm = manager(2);
    assert_eq!(ProcessControlBlock::ptrace_seize(&mut pm, 1, 0, PtraceOptions { bits: 0 }), Ok(0));
    pm.tasks[1].sig_pending = SigSet { bits: 1 << 8 };
    pm.tasks[1].flags.trapping = true;
    let step = ProcessControlBlock::ptrace_stop(&mut pm, 1, 5, SigChildCode::Trapped, None);
    assert_eq!(step, StopStep::Done(0));
    assert!(!pm.tasks[1].flags.trapping);
    assert_eq!(pm.actions, vec![Action::WakeTrapWaiters(1)]);
}

#[test]
fn stop_knows_the_stack_of_its_registers() {
    let mut pm = manager(2);
    assert_eq!(ProcessControlBlock::ptrace_seize(&mut pm, 1, 0, PtraceOptions { bits: 0 }), Ok(0));
    let _ = ProcessControlBlock::ptrace_stop_at(
        &mut pm,
        1,
        5,
        SigChildCode::Trapped,
        None,
        0x1000_1000,
    );
    assert!(pm.tasks[1].ptrace_state.stop_frame_on_syscall_stack);
    let _ = ProcessControlBlock::ptrace_stop_at(&mut pm, 1, 5, SigChildCode::Trapped, None, 0x1100);
    assert!(!pm.tasks[1].ptrace_state.stop_frame_on_syscall_stack);
    // The stack of the processor that runs this is at no address of either stack, or at
    // every one.
    pm.tasks[1].syscall_stack = KernelStack { start: 0, max: usize::MAX };
    let _ = ProcessControlBlock::ptrace_stop(&mut pm, 1, 5, SigChildCode::Trapped, None);
    assert!(pm.tasks[1].ptrace_state.stop_frame_on_syscall_stack);
    pm.tasks[1].syscall_stack = KernelStack { start: 0, max: 1 };
    let _ = ProcessControlBlock::ptrace_stop(&mut pm, 1, 5, SigChildCode::Trapped, None);
    assert!(!pm.tasks[1].ptrace_state.stop_frame_on_syscall_stack);
}

#[test]
fn tracer_is_told_of_a_stop() {
    let mut pm = stopped_tracee(None);
    pm.tasks[0].group_leader = Some(2);
    ProcessControlBlock::ptrace_stop_notify(&mut pm, 1, 0x85, SigChildCode::Trapped, false);
    assert_eq!(
        pm.actions,
        vec![
            Action::SendSignal {
                signal: Signal { nr: Signal::SIGCHLD },
                info: Some(SigInfo {
                    signo: Signal { nr: Signal::SIGCHLD },
                    errno: 0,
                    code: SigCode::Raw(4),
                    kind: SigType::SigChild {
                        pid: RawPid { data: 2 },
                        uid: 0,
                        status: 5,
                        utime: 0,
                        stime: 0,
                    },
                }),
                to: 0,
                scope: PidType::TGID,
            },
            Action::WakeAllWaiters(0),
            Action::WakeAllWaiters(2),
        ]
    );
}

#[test]
fn tracer_that_ignores_children_is_only_woken() {
    let mut pm = stopped_tracee(None);
    pm.sighands[0].sigchld = Some(SigchldAction { ignore: true, no_cld_stop: false });
    ProcessControlBlock::ptrace_stop_notify(&mut pm, 1, 5, SigChildCode::Trapped, false);
    assert_eq!(pm.actions, vec![Action::WakeAllWaiters(0)]);
    pm.actions.clear();
    pm.sighands[0].sigchld = Some(SigchldAction { ignore: false, no_cld_stop: true });
    ProcessControlBlock::ptrace_stop_notify(&mut pm, 1, 5, SigChildCode::Stopped, false);
    assert_eq!(pm.actions, vec![Action::WakeAllWaiters(0)]);
    pm.actions.clear();
    ProcessControlBlock::ptrace_stop_notify(&mut pm, 1, 5, SigChildCode::Trapped, false);
    assert_eq!(pm.actions.len(), 2);
}

#[test]
fn parent_is_told_when_the_whole_process_has_stopped() {
    let mut pm = stopped_tracee(None);
    pm.tasks[1].real_parent = Some(2);
    pm.sighands[0].sigchld = None;
    ProcessControlBlock::ptrace_stop_notify(&mut pm, 1, 0x8013, SigChildCode::Stopped, true);
    assert_eq!(pm.actions.len(), 3);
    assert_eq!(pm.actions[0], Action::WakeAllWaiters(0));
    match pm.actions[1] {
        Action::SendSignal { signal, info, to, scope } => {
            assert_eq!(signal, Signal { nr: Signal::SIGCHLD });
            assert_eq!(info.unwrap().code, SigCode::Raw(5));
            assert!(matches!(info.unwrap().kind, SigType::SigChild { status: 0x13, .. }));
            assert_eq!((to, scope), (2, PidType::TGID));
        }
        _ => panic!("the parent was not told"),
    }
    assert_eq!(pm.actions[2], Action::WakeAllWaiters(2));
    pm.actions.clear();
    pm.tasks[1].real_parent = Some(0);
    ProcessControlBlock::ptrace_stop_notify(&mut pm, 1, 0x8013, SigChildCode::Stopped, true);
    assert_eq!(pm.actions, vec![Action::WakeAllWaiters(0)]);
}

#[test]
fn signal_stops_its_task_but_kill_does_not() {
    let mut pm = manager(2);
    assert_eq!(ProcessControlBlock::ptrace_seize(&mut pm, 1, 0, PtraceOptions { bits: 0 }), Ok(0));
    let kill = Signal { nr: Signal::SIGKILL };
    assert_eq!(ptrace_signal(&mut pm, 1, kill, None), SignalStep::Deliver(kill));
    let step = ptrace_signal(&mut pm, 1, Signal { nr: 10 }, Some(info(10)));
    assert!(matches!(step, SignalStep::Stop(StopStep::Stopped { .. })));
    assert_eq!(pm.tasks[1].ptrace_state.exit_code, 10);
    assert_eq!(pm.tasks[1].ptrace_state.last_siginfo, Some(info(10)));
}

#[test]
fn signal_is_delivered_replaced_or_dropped() {
    let mut pm = manager(2);
    let mut told = Some(info(10));
    assert_eq!(ptrace_signal_delivery(&mut pm, 1, 0, &mut told, None, None), None);
    assert_eq!(ptrace_signal_delivery(&mut pm, 1, 65, &mut told, None, None), None);
    assert_eq!(told, Some(info(10)));
    assert_eq!(
        ptrace_signal_delivery(&mut pm, 1, 10, &mut told, Some(3), Some(4)),
        Some(Signal { nr: 10 })
    );
    assert_eq!(told, Some(info(10)));
    assert_eq!(
        ptrace_signal_delivery(&mut pm, 1, 12, &mut told, Some(3), Some(4)),
        Some(Signal { nr: 12 })
    );
    let replaced = SigInfo {
        signo: Signal { nr: 12 },
        errno: 0,
        code: SigCode::User,
        kind: SigType::Kill { pid: RawPid { data: 3 }, uid: 4 },
    };
    assert_eq!(told, Some(replaced));
    assert_eq!(
        ptrace_signal_delivery(&mut pm, 1, 13, &mut told, None, None),
        Some(Signal { nr: 13 })
    );
    assert_eq!(
        told.unwrap().kind,
        SigType::Kill { pid: RawPid { data: 0 }, uid: u32::MAX }
    );
    assert!(pm.actions.is_empty());
}

#[test]
fn blocked_signal_is_sent_anew() {
    let mut pm = manager(2);
    pm.tasks[1].sig_blocked = SigSet { bits: 1 << 9 };
    let mut told = Some(info(10));
    assert_eq!(ptrace_signal_delivery(&mut pm, 1, 10, &mut told, None, None), None);
    assert_eq!(
        pm.actions,
        vec![Action::SendSignal {
            signal: Signal { nr: 10 },
            info: Some(info(10)),
            to: 1,
            scope: PidType::PID,
        }]
    );
}

#[test]
fn replaced_signal_comes_from_the_tracer_or_the_parent() {
    let mut pm = manager(3);
    assert_eq!(signal_sender(&pm, 1), None);
    pm.tasks[1].real_parent = Some(2);
    assert_eq!(signal_sender(&pm, 1), Some(2));
    assert_eq!(ProcessControlBlock::ptrace_link(&mut pm, 1, 0), Ok(()));
    assert_eq!(signal_sender(&pm, 1), Some(0));
}

#[test]
fn notify_takes_traps_only() {
    let mut pm = manager(2);
    assert_eq!(ProcessControlBlock::ptrace_notify(&mut pm, 6, 0), Err(SystemError::EINVAL));
    assert_eq!(
        ProcessControlBlock::ptrace_notify(&mut pm, 0x1_0005, 0),
        Err(SystemError::EINVAL)
    );
    assert_eq!(ProcessControlBlock::ptrace_notify(&mut pm, 0x85, 0), Ok(StopStep::Done(0x85)));
    assert_eq!(ProcessControlBlock::ptrace_notify(&mut pm, 0x705, 0), Ok(StopStep::Done(0x705)));
}

#[test]
fn reinjected_signal_goes_to_the_running_task() {
    let mut pm = manager(2);
    ProcessControlBlock::reinject_ptrace_signal(&mut pm, 0);
    ProcessControlBlock::reinject_ptrace_signal(&mut pm, 100);
    assert!(pm.actions.is_empty());
    ProcessControlBlock::reinject_ptrace_signal(&mut pm, 15);
    assert_eq!(
        pm.actions,
        vec![Action::SendSignal {
            signal: Signal { nr: 15 },
            info: None,
            to: 0,
            scope: PidType::PID,
        }]
    );
}

/// The second task runs, and the first one traces it.
fn running_tracee(options: usize) -> ProcessManager {
    let mut pm = manager(2);
    pm.current = 1;
    let options = PtraceOptions { bits: options };
    assert_eq!(ProcessControlBlock::ptrace_seize(&mut pm, 1, 0, options), Ok(0));
    pm
}

#[test]
fn event_is_told_if_it_is_wanted() {
    let mut pm = running_tracee(PtraceOptions::TRACEEXEC);
    let step = ProcessControlBlock::ptrace_event(&mut pm, 1, PtraceEvent::Fork, 42);
    assert_eq!(step, StopStep::Done(0));
    assert_eq!(pm.tasks[1].ptrace_get_event_message(), 0);
    let step = ProcessControlBlock::ptrace_event(&mut pm, 1, PtraceEvent::Exec, 42);
    let guard = match step {
        StopStep::Stopped { participate, irq_guard } => {
            assert_eq!(participate, None);
            irq_guard
        }
        StopStep::Done(_) => panic!("the task goes on"),
    };
    assert_eq!(pm.tasks[1].ptrace_get_event_message(), 42);
    assert_eq!(pm.tasks[1].ptrace_state.exit_code, 0x405);
    assert_eq!(pm.tasks[1].ptrace_get_siginfo().unwrap().code, SigCode::Raw(0x405));
    let cont = PtraceRequest::Cont;
    assert_eq!(
        ProcessControlBlock::ptrace_resume(&mut pm, 1, cont, Some(Signal { nr: 15 })),
        Ok(0)
    );
    pm.actions.clear();
    ProcessControlBlock::ptrace_notify_resume(&mut pm, guard);
    assert_eq!(pm.tasks[1].ptrace_get_event_message(), 0);
    assert_eq!(
        pm.actions,
        vec![
            Action::RecalcSigpending(1),
            Action::SendSignal {
                signal: Signal { nr: 15 },
                info: None,
                to: 1,
                scope: PidType::PID,
            },
        ]
    );
}

#[test]
fn system_call_stops_are_marked_if_that_is_wanted() {
    let mut pm = running_tracee(PtraceOptions::TRACESYSGOOD);
    let report = ProcessControlBlock::ptrace_report_syscall(&mut pm, 1, true, 0, &[0; 6]);
    assert!(!report.skip);
    assert_eq!(report.step, StopStep::Done(0));
    pm.tasks[1].flags.trace_syscall = true;
    let report = ProcessControlBlock::ptrace_report_syscall(&mut pm, 1, true, 0, &[0; 6]);
    assert!(!report.skip);
    assert!(matches!(report.step, StopStep::Stopped { .. }));
    assert_eq!(pm.tasks[1].ptrace_state.exit_code, 0x85);
    assert_eq!(pm.tasks[1].ptrace_get_event_message(), 1);
    pm.tasks[1].ptrace_state.options = PtraceOptions { bits: 0 };
    let _ = ProcessControlBlock::ptrace_report_syscall(&mut pm, 1, false, 0, &[0; 6]);
    assert_eq!(pm.tasks[1].ptrace_state.exit_code, 5);
    assert_eq!(pm.tasks[1].ptrace_get_event_message(), 2);
}

#[test]
fn emulated_system_call_is_not_made() {
    let mut pm = running_tracee(0);
    pm.tasks[1].flags.trace_sysemu = true;
    assert!(ProcessControlBlock::ptrace_report_syscall(&mut pm, 1, true, 0, &[0; 6]).skip);
    let exit = ProcessControlBlock::ptrace_report_syscall(&mut pm, 1, false, 0, &[0; 6]);
    assert!(!exit.skip);
    assert_eq!(exit.step, StopStep::Done(0));
}

#[test]
fn step_over_a_system_call_is_a_step() {
    let mut pm = running_tracee(PtraceOptions::TRACESYSGOOD);
    pm.tasks[1].flags.trace_singlestep = true;
    let report = ProcessControlBlock::ptrace_report_syscall(&mut pm, 1, false, 0, &[0; 6]);
    assert!(matches!(report.step, StopStep::Stopped { .. }));
    assert_eq!(pm.tasks[1].ptrace_state.exit_code, 5);
    assert_eq!(pm.tasks[1].ptrace_get_siginfo().unwrap().code, SigCode::Raw(1));
    let info = pm.tasks[1].ptrace_get_syscall_info(0).unwrap();
    assert_eq!(info.op, PtraceSyscallInfoOp::Outside);
}

#[test]
fn system_call_at_its_entry_and_exit() {
    let mut pm = running_tracee(PtraceOptions::TRACESYSGOOD);
    pm.tasks[1].flags.trace_syscall = true;
    let frame = TrapFrame {
        errcode: 39,
        rdi: 1,
        rsi: 2,
        rdx: 3,
        r10: 4,
        r8: 5,
        r9: 6,
        rip: 0x400000,
        rsp: 0x7000,
        rax: (-2i64) as u64,
        ..TrapFrame::new()
    };
    pm.tasks[1].kernel_frame = frame;
    pm.tasks[1].syscall_frame = frame;
    let _ = ProcessControlBlock::ptrace_report_syscall(&mut pm, 1, true, 0, &[0; 6]);
    let info = pm.tasks[1].ptrace_get_syscall_info(0).unwrap();
    assert_eq!(info.op, PtraceSyscallInfoOp::Entry);
    assert_eq!(info.arch, 0xC000003E);
    assert_eq!((info.instruction_pointer, info.stack_pointer), (0x400000, 0x7000));
    match info.data {
        PtraceSyscallInfoData::Entry(entry) => {
            assert_eq!(entry.nr, 39);
            assert_eq!(entry.args, [1, 2, 3, 4, 5, 6]);
        }
        _ => panic!("no entry"),
    }
    let _ = ProcessControlBlock::ptrace_report_syscall(&mut pm, 1, false, 0, &[0; 6]);
    let info = pm.tasks[1].ptrace_get_syscall_info(0).unwrap();
    assert_eq!(info.op, PtraceSyscallInfoOp::Exit);
    match info.data {
        PtraceSyscallInfoData::Exit(exit) => {
            assert_eq!((exit.rval, exit.is_error), (-2, 1));
        }
        _ => panic!("no exit"),
    }
}

#[test]
fn filtered_system_call_tells_what_the_filter_said() {
    let mut pm = running_tracee(PtraceOptions::TRACESECCOMP);
    let _ = ProcessControlBlock::ptrace_event(&mut pm, 1, PtraceEvent::Seccomp, 0x1_0000_0007);
    let info = pm.tasks[1].ptrace_get_syscall_info(0).unwrap();
    assert_eq!(info.op, PtraceSyscallInfoOp::Seccomp);
    match info.data {
        PtraceSyscallInfoData::Seccomp(seccomp) => assert_eq!(seccomp.ret_data, 7),
        _ => panic!("no filter"),
    }
}

#[test]
fn system_call_info_is_built_up() {
    let info = PtraceSyscallInfo::default();
    assert_eq!(info.op, PtraceSyscallInfoOp::default());
    assert_eq!((info.pad, info.arch), ([0; 3], 0));
    let info = PtraceSyscallInfo::new(7, 8, 9).with_exit(-1, true);
    assert_eq!((info.arch, info.instruction_pointer, info.stack_pointer), (7, 8, 9));
    assert_eq!(info.op, PtraceSyscallInfoOp::Exit);
    let info = info.with_seccomp(1, [0; 6], 3).with_entry(2, [1; 6]);
    assert_eq!(info.op, PtraceSyscallInfoOp::Entry);
}

#[test]
fn returned_errors() {
    assert!(syscall_retval_is_error(-1));
    assert!(syscall_retval_is_error(-4095));
    assert!(!syscall_retval_is_error(-4096));
    assert!(!syscall_retval_is_error(0));
}

/// The registers of a task in user mode.
fn user_regs() -> UserRegsStruct {
    let mut regs = UserRegsStruct::from_trap_frame(&TrapFrame::new());
    regs.cs = 0x33;
    regs.ss = 0x2b;
    regs.r15 = 15;
    regs.orig_ax = 39;
    regs.flags = 0x246;
    regs
}

#[test]
fn written_registers_are_read_back() {
    let mut pm = stopped_tracee(None);
    let regs = UserRegsStruct { fs: 5, gs: 6, fs_base: 7, gs_base: 8, ..user_regs() };
    assert_eq!(ProcessControlBlock::write_tracee_user_regs(&mut pm, 1, &regs), Ok(()));
    let read = pm.tasks[1].tracee_user_regs();
    assert_eq!((read.fs, read.gs, read.fs_base, read.gs_base), (0, 0, 0, 0));
    assert_eq!((read.r15, read.orig_ax, read.cs, read.ss), (15, 39, 0x33, 0x2b));
    let kernel = UserRegsStruct { cs: 0x8, ..regs };
    assert_eq!(
        ProcessControlBlock::write_tracee_user_regs(&mut pm, 1, &kernel),
        Err(SystemError::EIO)
    );
}

#[test]
fn new_frame_is_zero() {
    let regs = UserRegsStruct::from_trap_frame(&TrapFrame::new());
    assert_eq!(regs, UserRegsStruct::default());
    assert_eq!(TrapFrame::new().func, 0);
}

#[test]
fn flags_outside_of_the_mask_stay() {
    let mut frame = TrapFrame { rflags: 0x200, ..TrapFrame::new() };
    let regs = UserRegsStruct { flags: 0xffff_ffff_ffff_ffff, ..user_regs() };
    assert_eq!(regs.write_to_trap_frame(&mut frame), Ok(()));
    assert_eq!(frame.rflags, 0x0005_4fd5);
    assert_eq!(frame.errcode, 39);
    let regs = UserRegsStruct { ss: 0, ..regs };
    assert_eq!(regs.write_to_trap_frame(&mut frame), Err(SystemError::EIO));
}

#[test]
fn forced_trap_flag_stays_with_written_registers() {
    let mut pm = stopped_tracee(None);
    let step = PtraceRequest::Singlestep;
    assert_eq!(ProcessControlBlock::ptrace_resume(&mut pm, 1, step, None), Ok(0));
    let regs = UserRegsStruct { flags: 0, ..user_regs() };
    assert_eq!(ProcessControlBlock::write_tracee_user_regs(&mut pm, 1, &regs), Ok(()));
    assert_eq!(pm.tasks[1].stop_frame().rflags, 0x100);
    assert!(pm.tasks[1].ptrace_state.forced_trap_flag);
    let regs = UserRegsStruct { flags: 0x100, ..regs };
    assert_eq!(ProcessControlBlock::write_tracee_user_regs(&mut pm, 1, &regs), Ok(()));
    assert!(!pm.tasks[1].ptrace_state.forced_trap_flag);
}

#[test]
fn words_of_the_user_area() {
    let mut pm = stopped_tracee(None);
    assert_eq!(
        ProcessControlBlock::write_tracee_user_regs(&mut pm, 1, &user_regs()),
        Ok(())
    );
    assert_eq!(pm.tasks[1].ptrace_peek_user(0), Ok(15));
    assert_eq!(pm.tasks[1].ptrace_peek_user(120), Ok(39));
    assert_eq!(pm.tasks[1].ptrace_peek_user(4), Err(SystemError::EIO));
    assert_eq!(pm.tasks[1].ptrace_peek_user(928), Err(SystemError::EIO));
    assert_eq!(pm.tasks[1].ptrace_peek_user(920), Ok(0));
    assert_eq!(ProcessControlBlock::ptrace_poke_user(&mut pm, 1, 8, 14), Ok(()));
    assert_eq!(pm.tasks[1].ptrace_peek_user(8), Ok(14));
    assert_eq!(ProcessControlBlock::ptrace_poke_user(&mut pm, 1, 848, 0x1000), Ok(()));
    assert_eq!(pm.tasks[1].ptrace_peek_user(848), Ok(0x1000));
    assert_eq!(ProcessControlBlock::ptrace_poke_user(&mut pm, 1, 896, 1), Ok(()));
    assert_eq!(pm.tasks[1].ptrace_peek_user(896), Ok(1));
    assert_eq!(pm.tasks[1].ptrace_state.debug_regs[6], 0xffff_0ff1);
    assert_eq!(
        ProcessControlBlock::ptrace_poke_user(&mut pm, 1, 880, 1),
        Err(SystemError::EIO)
    );
    assert_eq!(
        ProcessControlBlock::ptrace_poke_user(&mut pm, 1, 216, 1),
        Err(SystemError::EIO)
    );
}

#[test]
fn saved_registers_are_at_the_top_of_a_stack() {
    let mut p = task(1);
    assert_eq!(p.tracee_trap_frame_ptr(), 0x5000 - 192);
    p.ptrace_state.stop_frame_on_syscall_stack = true;
    assert_eq!(p.tracee_trap_frame_ptr(), 0x1000_4000 - 8 - 192);
}
