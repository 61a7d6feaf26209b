use dragonos_kernel::error::SystemError;
use dragonos_kernel::interrupt::handle::{x86_64_do_irq, x86_64_irq_return};
use dragonos_kernel::interrupt::trap_frame::{KernelStack, TrapFrame};
use dragonos_kernel::process::action::Action;
use dragonos_kernel::process::manager::ProcessManager;
use dragonos_kernel::process::pcb::{Cred, ExitState, ProcessControlBlock, ProcessFlags, TaskId};
use dragonos_kernel::process::signal::{RawPid, SigHand, SigSet, SigchldAction, Signal};
use dragonos_kernel::process::utils::current_pcb_flags;
use dragonos_kernel::ptrace::state::PtraceState;
use dragonos_kernel::sched::entity::{
    FairSchedEntity, ProcessSchedulerInfo, ProcessState, SchedInfo,
};
use dragonos_kernel::sched::flags::{DequeueFlag, EnqueueFlag, WakeupFlags};
use dragonos_kernel::sched::load_weight::LoadWeight;
use dragonos_kernel::sched::percpu::{SchedCore, SystemState, sched_init};
use dragonos_kernel::sched::policy::{OnRq, SchedPolicy};
use dragonos_kernel::sched::prio::SCHED_PRIO_TO_WEIGHT;
use dragonos_kernel::sched::rq::{ClockSample, CpuRunQueue};
use dragonos_kernel::sched::scheduler::{FairScheduler, SchedClasses, Scheduler};
use dragonos_kernel::smp::cpu::{CpuMask, ProcessorId, SmpCpuManager};
use dragonos_kernel::smp::init::smp_ap_start_stage2;
use dragonos_kernel::smp::setaffinity::{AffinityStep, SysSchedSetaffinity};

fn flags() -> ProcessFlags {
    ProcessFlags {
        kthread: false,
        need_schedule: false,
        need_migrate: false,
        in_iowait: false,
        sched_contributes_to_load: false,
        exiting: false,
        need_rseq: false,
        ptraced: false,
        trace_syscall: false,
        trace_singlestep: false,
        trace_sysemu: false,
        pt_seized: false,
        ptrace_event_stop: false,
        pending_ptrace_stop: false,
        trapping: false,
    }
}

/// A task of the fair class that can run on the first two processors.
fn task(pid: usize) -> ProcessControlBlock {
    let mut cpus_allowed = CpuMask::new();
    cpus_allowed.set(ProcessorId::new(0), true);
    cpus_allowed.set(ProcessorId::new(1), true);
    ProcessControlBlock {
        raw_pid: RawPid { data: pid },
        vpid: RawPid { data: pid },
        tgid: RawPid { data: pid },
        hashed: true,
        alive: true,
        flags: flags(),
        sched_info: ProcessSchedulerInfo {
            policy: SchedPolicy::CFS,
            prio: 120,
            static_prio: 120,
            normal_prio: 120,
            rt_priority: 0,
            cpu: ProcessorId::new(0),
            on_cpu: None,
            on_rq: OnRq::Unqueued,
            state: ProcessState::Runnable,
            mark_sleep: false,
            wake_kill: false,
            migrate_to: None,
            cpus_allowed,
            sched_stat: SchedInfo { last_queued: 0, run_delay: 0 },
            sched_entity: FairSchedEntity {
                load: LoadWeight { weight: 1024, inv_weight: 0 },
                util_avg: 0,
                last_update_time: 0,
                cfs_rq: ProcessorId::new(0),
                cfs_group: None,
                parent: None,
            },
        },
        exit_state: ExitState::Running,
        ptrace_state: PtraceState::new(),
        ptracer: None,
        real_parent: None,
        fork_parent: None,
        group_leader: None,
        cred: Cred { uid: 0, euid: 0, suid: 0, gid: 0, egid: 0, sgid: 0, cap_sys_ptrace: false },
        dumpable: 1,
        sig_blocked: SigSet { bits: 0 },
        sig_pending: SigSet { bits: 0 },
        has_pending_signal: false,
        sighand: pid - 1,
        kernel_stack: KernelStack { start: 0x1000, max: 0x5000 },
        syscall_stack: KernelStack { start: 0x1000_0000, max: 0x1000_4000 },
        kernel_rsp: 0x1100,
        kernel_frame: TrapFrame::new(),
        syscall_frame: TrapFrame::new(),
        user_vm: None,
        nvcsw: 0,
        nivcsw: 0,
        rseq_registered: false,
    }
}

/// The tasks with the numbers 1 to `n`; the first one runs on the first of two processors.
fn manager(n: usize) -> ProcessManager {
    let mut tasks = Vec::new();
    let mut ptraced = Vec::new();
    let mut sighands = Vec::new();
    for pid in 1..=n {
        tasks.push(task(pid));
        ptraced.push(Vec::new());
        sighands.push(SigHand {
            stop_stopped: false,
            cld_stopped: false,
            stop_signal: Signal { nr: Signal::INVALID },
            sigchld: Some(SigchldAction { ignore: false, no_cld_stop: false }),
        });
    }
    ProcessManager {
        tasks,
        ptraced,
        sighands,
        preempt_count: vec![0; 128],
        init_done: true,
        cpu: ProcessorId::new(0),
        current: 0,
        irq_enabled: true,
        bh_disabled: 0,
        nr_running: 0,
        actions: Vec::new(),
    }
}

/// A scheduling class that takes the first of its tasks.
struct FirstTask;

impl Scheduler for FirstTask {
    fn enqueue(rq: &mut CpuRunQueue, pm: &mut ProcessManager, _t: TaskId, _flags: EnqueueFlag) {
        rq.cfs.h_nr_running += 1;
        rq.add_nr_running(pm, 1);
    }

    fn dequeue(rq: &mut CpuRunQueue, pm: &mut ProcessManager, _t: TaskId, _flags: DequeueFlag) {
        rq.cfs.h_nr_running -= 1;
        rq.sub_nr_running(pm, 1);
    }

    fn yield_task(_rq: &mut CpuRunQueue, _pm: &mut ProcessManager) {}

    fn check_preempt_current(
        rq: &mut CpuRunQueue,
        pm: &mut ProcessManager,
        _t: TaskId,
        _flags: WakeupFlags,
    ) {
        rq.resched_current(pm);
    }

    fn pick_task(rq: &mut CpuRunQueue, pm: &mut ProcessManager) -> Option<TaskId> {
        (0..pm.tasks.len()).find(|t| {
            let info = &pm.tasks[*t].sched_info;
            info.policy == SchedPolicy::CFS && info.on_rq == OnRq::Queued && info.cpu == rq.cpu
        })
    }

    fn pick_next_task(
        rq: &mut CpuRunQueue,
        pm: &mut ProcessManager,
        _prev: Option<TaskId>,
    ) -> Option<TaskId> {
        Self::pick_task(rq, pm)
    }

    fn tick(_rq: &mut CpuRunQueue, pm: &mut ProcessManager, t: TaskId, _queued: bool) {
        pm.tasks[t].sched_info.sched_entity.util_avg += 1;
    }

    fn task_fork(_rq: &mut CpuRunQueue, pm: &mut ProcessManager, t: TaskId) {
        pm.tasks[t].sched_info.sched_entity.util_avg = 7;
    }

    fn put_prev_task(_rq: &mut CpuRunQueue, _pm: &mut ProcessManager, _prev: TaskId) {}
}

impl FairScheduler for FirstTask {
    fn set_next_task(rq: &mut CpuRunQueue, _pm: &mut ProcessManager, t: TaskId) {
        rq.cfs.current = Some(t);
    }

    fn init_entity_runnable_average(se: &mut FairSchedEntity) {
        se.util_avg = 0;
        se.last_update_time = 0;
    }

    fn post_init_entity_util_avg(_rq: &mut CpuRunQueue, pm: &mut ProcessManager, t: TaskId) {
        pm.tasks[t].sched_info.sched_entity.util_avg = 512;
    }

    fn set_load_weight(static_prio: i32) -> LoadWeight {
        let weight = SCHED_PRIO_TO_WEIGHT[(static_prio - 100) as usize];
        LoadWeight { weight: LoadWeight::scale_load(weight), inv_weight: 0 }
    }
}

/// The class of the idle tasks.
struct OnlyIdle;

impl Scheduler for OnlyIdle {
    fn enqueue(_rq: &mut CpuRunQueue, _pm: &mut ProcessManager, _t: TaskId, _flags: EnqueueFlag) {}

    fn dequeue(_rq: &mut CpuRunQueue, _pm: &mut ProcessManager, _t: TaskId, _flags: DequeueFlag) {}

    fn yield_task(_rq: &mut CpuRunQueue, _pm: &mut ProcessManager) {}

    fn check_preempt_current(
        _rq: &mut CpuRunQueue,
        _pm: &mut ProcessManager,
        _t: TaskId,
        _flags: WakeupFlags,
    ) {
    }

    fn pick_task(rq: &mut CpuRunQueue, _pm: &mut ProcessManager) -> Option<TaskId> {
        rq.idle
    }

    fn pick_next_task(
        rq: &mut CpuRunQueue,
        _pm: &mut ProcessManager,
        _prev: Option<TaskId>,
    ) -> Option<TaskId> {
        rq.idle
    }

    fn tick(_rq: &mut CpuRunQueue, _pm: &mut ProcessManager, _t: TaskId, _queued: bool) {}

    fn task_fork(_rq: &mut CpuRunQueue, _pm: &mut ProcessManager, _t: TaskId) {}

    fn put_prev_task(_rq: &mut CpuRunQueue, _pm: &mut ProcessManager, _prev: TaskId) {}
}

struct Classes;

impl SchedClasses for Classes {
    type Fair = FirstTask;
    type Fifo = OnlyIdle;
    type Idle = OnlyIdle;
}

fn cpu(id: u32) -> ProcessorId {
    ProcessorId::new(id)
}

fn mask(ids: &[u32]) -> CpuMask {
    let mut mask = CpuMask::new();
    for id in ids {
        mask.set(cpu(*id), true);
    }
    mask
}

const NOW: ClockSample = ClockSample { clock: 1000, irq_time: 100 };

/// Two processors: the first one runs the first task and has the second one for its idle task,
/// the second one runs its idle task, the fourth one. The third task is on no queue.
fn machine() -> (SchedCore, ProcessManager) {
    let mut pm = manager(4);
    let both = mask(&[0, 1]);
    let smp = SmpCpuManager { initialized: true, possible: both, present: both, online: both };
    let mut sched = sched_init(&mut pm, 0, smp, SystemState::Running);
    pm.actions.clear();
    pm.tasks[1].sched_info.policy = SchedPolicy::IDLE;
    pm.tasks[3].sched_info.policy = SchedPolicy::IDLE;
    pm.tasks[3].sched_info.cpu = cpu(1);
    pm.tasks[3].sched_info.on_cpu = Some(cpu(1));
    pm.tasks[0].sched_info.on_cpu = Some(cpu(0));
    pm.tasks[0].sched_info.on_rq = OnRq::Queued;
    pm.nr_running = 1;
    sched.rqs[0].set_current(0);
    sched.rqs[0].set_idle(Some(1));
    sched.rqs[0].nr_running = 1;
    sched.rqs[0].cfs.h_nr_running = 1;
    sched.rqs[1].set_current(3);
    sched.rqs[1].set_idle(Some(3));
    sched.idle_cpus = mask(&[1]);
    (sched, pm)
}

/// The same with the third task on the queue of the first processor.
fn busy_machine() -> (SchedCore, ProcessManager) {
    let (mut sched, mut pm) = machine();
    sched.rqs[0].activate_task::<Classes>(
        &mut pm,
        2,
        EnqueueFlag { bits: EnqueueFlag::ENQUEUE_NOCLOCK },
        NOW,
    );
    (sched, pm)
}

#[test]
fn processors_of_a_set() {
    let mut set = CpuMask::new();
    assert!(set.is_empty());
    assert_eq!(set.set(cpu(70), true), Some(false));
    assert_eq!(set.get(cpu(70)), Some(true));
    assert_eq!(set.get(cpu(71)), Some(false));
    assert_eq!(set.get(cpu(128)), None);
    assert_eq!(set.set(cpu(128), true), None);
    set.set(cpu(5), true);
    assert_eq!(set.first(), Some(cpu(5)));
    assert_eq!(set.count(), 2);
    assert_eq!(set.first_and(&mask(&[70, 71])), Some(cpu(70)));
    assert_eq!(set.first_and(&mask(&[71])), None);
    assert!(ProcessorId::new(ProcessorId::INVALID).is_invalid());
}

#[test]
fn bit_map_of_a_user() {
    let set = SysSchedSetaffinity::parse_user_mask(&vec![0x05, 0x80]).unwrap();
    assert_eq!(set.count(), 3);
    assert!(set.contains(cpu(0)) && set.contains(cpu(2)) && set.contains(cpu(15)));
    let mut long = vec![0; 17];
    assert!(SysSchedSetaffinity::parse_user_mask(&long).is_ok());
    long[16] = 1;
    assert!(matches!(
        SysSchedSetaffinity::parse_user_mask(&long),
        Err(SystemError::EINVAL)
    ));
}

#[test]
fn affinity_is_refused() {
    let (mut sched, mut pm) = machine();
    let call = SysSchedSetaffinity;
    assert_eq!(call.num_args(), 3);
    let refused = [
        (vec![0, 0, 1], true, Ok(vec![]), SystemError::EINVAL),
        (vec![0, 1, 1], true, Err(SystemError::EFAULT), SystemError::EFAULT),
        (vec![77, 1, 1], true, Ok(vec![1]), SystemError::ESRCH),
        (vec![0, 1, 1], false, Ok(vec![1]), SystemError::EPERM),
        (vec![0, 1, 1], true, Ok(vec![0]), SystemError::EINVAL),
        (vec![0, 1, 1], true, Ok(vec![0xfc]), SystemError::EINVAL),
    ];
    for (args, permitted, user_set, error) in refused {
        let step = call.handle(&mut sched, &mut pm, &args, permitted, user_set, NOW);
        assert!(matches!(step, AffinityStep::Done(Err(e)) if e == error));
    }
    assert_eq!(pm.tasks[0].sched_info.cpus_allowed.count(), 2);
}

#[test]
fn task_stays_where_it_may_run() {
    let (mut sched, mut pm) = machine();
    let step = SysSchedSetaffinity.handle(
        &mut sched,
        &mut pm,
        &vec![0, 1, 1],
        true,
        Ok(vec![0x01]),
        NOW,
    );
    assert!(matches!(step, AffinityStep::Done(Ok(0))));
    assert_eq!(pm.tasks[0].sched_info.cpus_allowed.count(), 1);
    assert!(pm.irq_enabled);
}

#[test]
fn running_task_moves_away() {
    let (mut sched, mut pm) = machine();
    let step = SysSchedSetaffinity.handle(
        &mut sched,
        &mut pm,
        &vec![0, 1, 1],
        true,
        Ok(vec![0x02]),
        NOW,
    );
    let (target, allowed, irq_guard) = match step {
        AffinityStep::SelectForCurrent { target, mask, irq_guard } => (target, mask, irq_guard),
        _ => panic!("no processor has to be selected"),
    };
    assert_eq!(target, 0);
    let step = SysSchedSetaffinity::move_current::<Classes>(
        &mut sched,
        &mut pm,
        target,
        allowed,
        irq_guard,
        cpu(1),
        NOW,
        NOW,
    );
    let irq_guard = match step {
        AffinityStep::Switched { irq_guard } => irq_guard,
        _ => panic!("the task goes on"),
    };
    assert!(pm.actions.contains(&Action::ReschedIpi(cpu(1))));
    assert_eq!(sched.wakequeues[1].list, vec![0]);
    assert_eq!(pm.tasks[0].sched_info.cpu, cpu(1));
    assert_eq!(sched.rqs[0].nr_running, 0);
    assert_eq!(sched.rqs[0].current, Some(1));
    let done = SysSchedSetaffinity::finish::<Classes>(&mut sched, &mut pm, irq_guard, NOW);
    assert!(matches!(done, AffinityStep::Done(Ok(0))));
    assert!(pm.irq_enabled);
}

#[test]
fn waiting_task_moves_to_another_queue() {
    let (mut sched, mut pm) = busy_machine();
    let step = SysSchedSetaffinity.handle(
        &mut sched,
        &mut pm,
        &vec![3, 1, 1],
        true,
        Ok(vec![0x02]),
        NOW,
    );
    match step {
        AffinityStep::SelectForOther { target, mask, cpu: from, irq_guard, rq_guard } => {
            assert_eq!((target, from), (2, cpu(0)));
            let step = SysSchedSetaffinity::move_other::<Classes>(
                &mut sched, &mut pm, target, mask, from, irq_guard, rq_guard, cpu(1), NOW,
            );
            assert!(matches!(step, AffinityStep::Done(Ok(0))));
        }
        _ => panic!("no processor has to be selected"),
    }
    assert_eq!(pm.tasks[2].sched_info.cpu, cpu(1));
    assert_eq!(sched.rqs[0].nr_running, 1);
    assert!(pm.irq_enabled);
    assert!(!sched.rqs[0].lock.is_locked());
}

#[test]
fn processor_comes_up() {
    let mut pm = manager(1);
    pm.irq_enabled = false;
    pm.preempt_count[0] = 3;
    smp_ap_start_stage2(&mut pm);
    assert_eq!(pm.preempt_count[0], 0);
    assert_eq!(pm.actions.first(), Some(&Action::CpuhpStep(cpu(0))));
    assert_eq!(pm.actions.last(), Some(&Action::ArchIdle));
}

#[test]
fn interrupt_from_user_mode() {
    let mut pm = manager(1);
    let user = TrapFrame { cs: 0x33, ..TrapFrame::new() };
    x86_64_do_irq(&mut pm, &user, 32, true);
    assert_eq!(
        pm.actions,
        vec![Action::SwapGs, Action::HandleIrq(32), Action::DoSoftirq]
    );
    pm.actions.clear();
    x86_64_do_irq(&mut pm, &TrapFrame::new(), 33, false);
    assert_eq!(pm.actions, vec![Action::SendEoi, Action::DoSoftirq]);
}

#[test]
fn interrupt_preempts_if_it_may() {
    let (mut sched, mut pm) = busy_machine();
    sched.rqs[0].set_current(2);
    pm.current = 2;
    pm.tasks[2].flags.need_schedule = true;
    pm.preempt_count[0] = 1;
    assert!(!x86_64_irq_return::<Classes>(&mut sched, &mut pm, NOW));
    pm.preempt_count[0] = 0;
    assert!(x86_64_irq_return::<Classes>(&mut sched, &mut pm, NOW));
    assert_eq!(sched.rqs[0].current, Some(0));
    let (mut sched, mut pm) = busy_machine();
    assert!(!x86_64_irq_return::<Classes>(&mut sched, &mut pm, NOW));
}

#[test]
fn marks_of_the_running_task() {
    let mut pm = manager(1);
    pm.tasks[0].flags.need_schedule = true;
    assert!(current_pcb_flags(&pm).need_schedule);
    pm.init_done = false;
    assert!(!current_pcb_flags(&pm).need_schedule);
}
