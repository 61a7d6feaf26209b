use dragonos_kernel::error::SystemError;
use dragonos_kernel::interrupt::trap_frame::{KernelStack, TrapFrame};
use dragonos_kernel::libs::spinlock::{SpinLock, SpinLockGuard};
use dragonos_kernel::process::manager::ProcessManager;
use dragonos_kernel::process::pcb::{Cred, ExitState, ProcessControlBlock, ProcessFlags};
use dragonos_kernel::process::preempt::{
    PreemptGuard, current_preempt_count, preempt_count_val, set_preempt_count_val,
};
use dragonos_kernel::process::signal::{RawPid, SigHand, SigSet, SigchldAction, Signal};
use dragonos_kernel::ptrace::state::PtraceState;
use dragonos_kernel::sched::entity::{
    FairSchedEntity, ProcessSchedulerInfo, ProcessState, SchedInfo,
};
use dragonos_kernel::sched::load_weight::LoadWeight;
use dragonos_kernel::sched::policy::{OnRq, SchedPolicy};
use dragonos_kernel::smp::cpu::{CpuMask, ProcessorId};

fn flags() -> ProcessFlags {
    ProcessFlags {
        kthread: false,
        need_schedule: false,
        need_migrate: false,
        in_iowait: false,
        sched_contributes_to_load: false,
        exiting: false,
        need_rseq: false,
        ptraced: false,
        trace_syscall: false,
        trace_singlestep: false,
        trace_sysemu: false,
        pt_seized: false,
        ptrace_event_stop: false,
        pending_ptrace_stop: false,
        trapping: false,
    }
}

/// A task of the fair class that can run on the first two processors.
fn task(pid: usize) -> ProcessControlBlock {
    let mut cpus_allowed = CpuMask::new();
    cpus_allowed.set(ProcessorId::new(0), true);
    cpus_allowed.set(ProcessorId::new(1), true);
    ProcessControlBlock {
        raw_pid: RawPid { data: pid },
        vpid: RawPid { data: pid },
        tgid: RawPid { data: pid },
        hashed: true,
        alive: true,
        flags: flags(),
        sched_info: ProcessSchedulerInfo {
            policy: SchedPolicy::CFS,
            prio: 120,
            static_prio: 120,
            normal_prio: 120,
            rt_priority: 0,
            cpu: ProcessorId::new(0),
            on_cpu: None,
            on_rq: OnRq::Unqueued,
            state: ProcessState::Runnable,
            mark_sleep: false,
            wake_kill: false,
            migrate_to: None,
            cpus_allowed,
            sched_stat: SchedInfo { last_queued: 0, run_delay: 0 },
            sched_entity: FairSchedEntity {
                load: LoadWeight { weight: 1024, inv_weight: 0 },
                util_avg: 0,
                last_update_time: 0,
                cfs_rq: ProcessorId::new(0),
                cfs_group: None,
                parent: None,
            },
        },
        exit_state: ExitState::Running,
        ptrace_state: PtraceState::new(),
        ptracer: None,
        real_parent: None,
        fork_parent: None,
        group_leader: None,
        cred: Cred { uid: 0, euid: 0, suid: 0, gid: 0, egid: 0, sgid: 0, cap_sys_ptrace: false },
        dumpable: 1,
        sig_blocked: SigSet { bits: 0 },
        sig_pending: SigSet { bits: 0 },
        has_pending_signal: false,
        sighand: pid - 1,
        kernel_stack: KernelStack { start: 0x1000, max: 0x5000 },
        syscall_stack: KernelStack { start: 0x1000_0000, max: 0x1000_4000 },
        kernel_rsp: 0x1100,
        kernel_frame: TrapFrame::new(),
        syscall_frame: TrapFrame::new(),
        user_vm: None,
        nvcsw: 0,
        nivcsw: 0,
        rseq_registered: false,
    }
}

/// The tasks with the numbers 1 to `n`; the first one runs on the first of two processors.
fn manager(n: usize) -> ProcessManager {
    let mut tasks = Vec::new();
    let mut ptraced = Vec::new();
    let mut sighands = Vec::new();
    for pid in 1..=n {
        tasks.push(task(pid));
        ptraced.push(Vec::new());
        sighands.push(SigHand {
            stop_stopped: false,
            cld_stopped: false,
            stop_signal: Signal { nr: Signal::INVALID },
            sigchld: Some(SigchldAction { ignore: false, no_cld_stop: false }),
        });
    }
    ProcessManager {
        tasks,
        ptraced,
        sighands,
        preempt_count: vec![0; 128],
        init_done: true,
        cpu: ProcessorId::new(0),
        current: 0,
        irq_enabled: true,
        bh_disabled: 0,
        nr_running: 0,
        actions: Vec::new(),
    }
}

#[test]
fn lock_is_given_back() {
    let mut pm = manager(1);
    let mut lock = SpinLock::new(5);
    let guard = lock.lock(&mut pm);
    assert!(lock.is_locked());
    assert_eq!(pm.preempt_count[0], 1);
    assert!(pm.irq_enabled);
    assert!(matches!(lock.try_lock(&mut pm), Err(SystemError::EAGAIN_OR_EWOULDBLOCK)));
    assert_eq!(pm.preempt_count[0], 1);
    lock.unlock(guard, &mut pm);
    assert!(!lock.is_locked());
    assert_eq!(pm.preempt_count[0], 0);
    assert_eq!(*lock.get_assume_locked(), 5);
}

#[test]
fn lock_with_interrupts_off() {
    let mut pm = manager(1);
    let mut lock = SpinLock::new(());
    let guard = lock.lock_irqsave(&mut pm);
    assert!(!pm.irq_enabled);
    assert!(lock.try_lock_irqsave(&mut pm).is_err());
    lock.unlock(guard, &mut pm);
    assert!(pm.irq_enabled);
    pm.irq_enabled = false;
    let guard = lock.try_lock_irqsave(&mut pm).ok().unwrap();
    lock.unlock(guard, &mut pm);
    assert!(!pm.irq_enabled);
}

#[test]
fn lock_with_deferred_work_disabled() {
    let mut pm = manager(1);
    let mut lock = SpinLock::new(());
    let guard = lock.lock_bh(&mut pm);
    assert_eq!((pm.bh_disabled, pm.preempt_count[0]), (1, 1));
    assert!(pm.irq_enabled);
    lock.unlock_bh(guard, &mut pm);
    assert_eq!((pm.bh_disabled, pm.preempt_count[0]), (0, 0));
}

#[test]
fn leaked_lock_stays_held() {
    let mut pm = manager(1);
    let mut lock = SpinLock::new(1);
    let guard = lock.lock_irqsave_no_preempt(&mut pm);
    assert_eq!(pm.preempt_count[0], 0);
    assert!(!pm.irq_enabled);
    *SpinLockGuard::leak(guard, &mut lock) = 2;
    assert!(lock.is_locked());
    lock.force_unlock();
    assert!(!lock.is_locked());
    assert_eq!(lock.data, 2);
}

#[test]
fn preemption_is_disabled_in_depth() {
    let mut pm = manager(1);
    let guard = PreemptGuard::new(&mut pm);
    pm.preempt_disable();
    assert_eq!(preempt_count_val(&pm), 2);
    pm.preempt_enable();
    guard.release(&mut pm);
    assert_eq!(*current_preempt_count(&pm), 0);
    pm.preempt_enable_no_resched();
    assert_eq!(preempt_count_val(&pm), 0);
}

#[test]
fn preemption_count_belongs_to_a_processor() {
    let mut pm = manager(1);
    pm.preempt_disable();
    pm.cpu = ProcessorId::new(1);
    assert_eq!(preempt_count_val(&pm), 0);
    set_preempt_count_val(&mut pm, 4);
    assert_eq!(pm.preempt_count[0], 1);
    assert_eq!(pm.preempt_count[1], 4);
}

#[test]
fn preemption_is_not_counted_before_there_are_processes() {
    let mut pm = manager(1);
    pm.init_done = false;
    pm.preempt_disable();
    assert_eq!(preempt_count_val(&pm), 0);
}
