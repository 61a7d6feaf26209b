use dragonos_kernel::error::SystemError;
use dragonos_kernel::interrupt::trap_frame::{KernelStack, TrapFrame};
use dragonos_kernel::process::action::Action;
use dragonos_kernel::process::manager::ProcessManager;
use dragonos_kernel::process::pcb::{Cred, ExitState, ProcessControlBlock, ProcessFlags, TaskId};
use dragonos_kernel::process::signal::{RawPid, SigHand, SigSet, SigchldAction, Signal};
use dragonos_kernel::ptrace::state::PtraceState;
use dragonos_kernel::sched::loadavg;
use dragonos_kernel::sched::domain::{SchedDomain, SchedGroup};
use dragonos_kernel::sched::entity::{
    FairSchedEntity, GroupEntity, ProcessSchedulerInfo, ProcessState, SchedInfo,
};
use dragonos_kernel::sched::flags::{
    ClockUpdataFlag, DequeueFlag, EnqueueFlag, SchedFeature, SchedMode, WakeupFlags,
};
use dragonos_kernel::sched::fork::{request_task_migration, sched_cgroup_fork, sched_fork};
use dragonos_kernel::sched::getparam::SysSchedGetparam;
use dragonos_kernel::sched::load_weight::LoadWeight;
use dragonos_kernel::sched::percpu::{
    SchedCore, SystemState, TaskGroup, WakeQueue, __set_task_cpu, boot_in_progress, cpu_irq_time, cpu_is_online, is_idle_cpu, nr_iowait, pick_idle_cpu, sched_init, task_cpu,
};
use dragonos_kernel::sched::policy::{OnRq, SchedPolicy};
use dragonos_kernel::sched::prio::{PrioUtil, SCHED_PRIO_TO_WEIGHT};
use dragonos_kernel::sched::rebalance::{
    CpuIdleType, LbEnv, get_sd_balance_interval, group_balance_cpu, max_load_balance_interval, rebalance_domains, should_we_balance,
};
use dragonos_kernel::sched::rq::{ClockSample, CpuRunQueue, HZ};
use dragonos_kernel::sched::schedule::{
    __schedule, io_schedule, io_schedule_back, need_resched, schedule, schedule_back,
    take_current_migration_target,
};
use dragonos_kernel::sched::scheduler::{FairScheduler, SchedClasses, Scheduler};
use dragonos_kernel::sched::tick::{sched_yield, scheduler_tick, trigger_load_balance};
use dragonos_kernel::sched::wake::{ttwu_queue, wake_up_new_task, wakequeue_push_and_kick};
use dragonos_kernel::smp::cpu::{CpuMask, ProcessorId, SmpCpuManager};

fn flags() -> ProcessFlags {
    ProcessFlags {
        kthread: false,
        need_schedule: false,
        need_migrate: false,
        in_iowait: false,
        sched_contributes_to_load: false,
        exiting: false,
        need_rseq: false,
        ptraced: false,
        trace_syscall: false,
        trace_singlestep: false,
        trace_sysemu: false,
        pt_seized: false,
        ptrace_event_stop: false,
        pending_ptrace_stop: false,
        trapping: false,
    }
}

/// A task of the fair class that can run on the first two processors.
fn task(pid: usize) -> ProcessControlBlock {
    let mut cpus_allowed = CpuMask::new();
    cpus_allowed.set(ProcessorId::new(0), true);
    cpus_allowed.set(ProcessorId::new(1), true);
    ProcessControlBlock {
        raw_pid: RawPid { data: pid },
        vpid: RawPid { data: pid },
        tgid: RawPid { data: pid },
        hashed: true,
        alive: true,
        flags: flags(),
        sched_info: ProcessSchedulerInfo {
            policy: SchedPolicy::CFS,
            prio: 120,
            static_prio: 120,
            normal_prio: 120,
            rt_priority: 0,
            cpu: ProcessorId::new(0),
            on_cpu: None,
            on_rq: OnRq::Unqueued,
            state: ProcessState::Runnable,
            mark_sleep: false,
            wake_kill: false,
            migrate_to: None,
            cpus_allowed,
            sched_stat: SchedInfo { last_queued: 0, run_delay: 0 },
            sched_entity: FairSchedEntity {
                load: LoadWeight { weight: 1024, inv_weight: 0 },
                util_avg: 0,
                last_update_time: 0,
                cfs_rq: ProcessorId::new(0),
                cfs_group: None,
                parent: None,
            },
        },
        exit_state: ExitState::Running,
        ptrace_state: PtraceState::new(),
        ptracer: None,
        real_parent: None,
        fork_parent: None,
        group_leader: None,
        cred: Cred { uid: 0, euid: 0, suid: 0, gid: 0, egid: 0, sgid: 0, cap_sys_ptrace: false },
        dumpable: 1,
        sig_blocked: SigSet { bits: 0 },
        sig_pending: SigSet { bits: 0 },
        has_pending_signal: false,
        sighand: pid - 1,
        kernel_stack: KernelStack { start: 0x1000, max: 0x5000 },
        syscall_stack: KernelStack { start: 0x1000_0000, max: 0x1000_4000 },
        kernel_rsp: 0x1100,
        kernel_frame: TrapFrame::new(),
        syscall_frame: TrapFrame::new(),
        user_vm: None,
        nvcsw: 0,
        nivcsw: 0,
        rseq_registered: false,
    }
}

/// The tasks with the numbers 1 to `n`; the first one runs on the first of two processors.
fn manager(n: usize) -> ProcessManager {
    let mut tasks = Vec::new();
    let mut ptraced = Vec::new();
    let mut sighands = Vec::new();
    for pid in 1..=n {
        tasks.push(task(pid));
        ptraced.push(Vec::new());
        sighands.push(SigHand {
            stop_stopped: false,
            cld_stopped: false,
            stop_signal: Signal { nr: Signal::INVALID },
            sigchld: Some(SigchldAction { ignore: false, no_cld_stop: false }),
        });
    }
    ProcessManager {
        tasks,
        ptraced,
        sighands,
        preempt_count: vec![0; 128],
        init_done: true,
        cpu: ProcessorId::new(0),
        current: 0,
        irq_enabled: true,
        bh_disabled: 0,
        nr_running: 0,
        actions: Vec::new(),
    }
}

/// A scheduling class that takes the first of its tasks.
struct FirstTask;

impl Scheduler for FirstTask {
    fn enqueue(rq: &mut CpuRunQueue, pm: &mut ProcessManager, _t: TaskId, _flags: EnqueueFlag) {
        rq.cfs.h_nr_running += 1;
        rq.add_nr_running(pm, 1);
    }

    fn dequeue(rq: &mut CpuRunQueue, pm: &mut ProcessManager, _t: TaskId, _flags: DequeueFlag) {
        rq.cfs.h_nr_running -= 1;
        rq.sub_nr_running(pm, 1);
    }

    fn yield_task(_rq: &mut CpuRunQueue, _pm: &mut ProcessManager) {}

    fn check_preempt_current(
        rq: &mut CpuRunQueue,
        pm: &mut ProcessManager,
        _t: TaskId,
        _flags: WakeupFlags,
    ) {
        rq.resched_current(pm);
    }

    fn pick_task(rq: &mut CpuRunQueue, pm: &mut ProcessManager) -> Option<TaskId> {
        (0..pm.tasks.len()).find(|t| {
            let info = &pm.tasks[*t].sched_info;
            info.policy == SchedPolicy::CFS && info.on_rq == OnRq::Queued && info.cpu == rq.cpu
        })
    }

    fn pick_next_task(
        rq: &mut CpuRunQueue,
        pm: &mut ProcessManager,
        _prev: Option<TaskId>,
    ) -> Option<TaskId> {
        Self::pick_task(rq, pm)
    }

    fn tick(_rq: &mut CpuRunQueue, pm: &mut ProcessManager, t: TaskId, _queued: bool) {
        pm.tasks[t].sched_info.sched_entity.util_avg += 1;
    }

    fn task_fork(_rq: &mut CpuRunQueue, pm: &mut ProcessManager, t: TaskId) {
        pm.tasks[t].sched_info.sched_entity.util_avg = 7;
    }

    fn put_prev_task(_rq: &mut CpuRunQueue, _pm: &mut ProcessManager, _prev: TaskId) {}
}

impl FairScheduler for FirstTask {
    fn set_next_task(rq: &mut CpuRunQueue, _pm: &mut ProcessManager, t: TaskId) {
        rq.cfs.current = Some(t);
    }

    fn init_entity_runnable_average(se: &mut FairSchedEntity) {
        se.util_avg = 0;
        se.last_update_time = 0;
    }

    fn post_init_entity_util_avg(_rq: &mut CpuRunQueue, pm: &mut ProcessManager, t: TaskId) {
        pm.tasks[t].sched_info.sched_entity.util_avg = 512;
    }

    fn set_load_weight(static_prio: i32) -> LoadWeight {
        let weight = SCHED_PRIO_TO_WEIGHT[(static_prio - 100) as usize];
        LoadWeight { weight: LoadWeight::scale_load(weight), inv_weight: 0 }
    }
}

/// The class of the idle tasks.
struct OnlyIdle;

impl Scheduler for OnlyIdle {
    fn enqueue(_rq: &mut CpuRunQueue, _pm: &mut ProcessManager, _t: TaskId, _flags: EnqueueFlag) {}

    fn dequeue(_rq: &mut CpuRunQueue, _pm: &mut ProcessManager, _t: TaskId, _flags: DequeueFlag) {}

    fn yield_task(_rq: &mut CpuRunQueue, _pm: &mut ProcessManager) {}

    fn check_preempt_current(
        _rq: &mut CpuRunQueue,
        _pm: &mut ProcessManager,
        _t: TaskId,
        _flags: WakeupFlags,
    ) {
    }

    fn pick_task(rq: &mut CpuRunQueue, _pm: &mut ProcessManager) -> Option<TaskId> {
        rq.idle
    }

    fn pick_next_task(
        rq: &mut CpuRunQueue,
        _pm: &mut ProcessManager,
        _prev: Option<TaskId>,
    ) -> Option<TaskId> {
        rq.idle
    }

    fn tick(_rq: &mut CpuRunQueue, _pm: &mut ProcessManager, _t: TaskId, _queued: bool) {}

    fn task_fork(_rq: &mut CpuRunQueue, _pm: &mut ProcessManager, _t: TaskId) {}

    fn put_prev_task(_rq: &mut CpuRunQueue, _pm: &mut ProcessManager, _prev: TaskId) {}
}

struct Classes;

impl SchedClasses for Classes {
    type Fair = FirstTask;
    type Fifo = OnlyIdle;
    type Idle = OnlyIdle;
}

fn cpu(id: u32) -> ProcessorId {
    ProcessorId::new(id)
}

fn mask(ids: &[u32]) -> CpuMask {
    let mut mask = CpuMask::new();
    for id in ids {
        mask.set(cpu(*id), true);
    }
    mask
}

const NOW: ClockSample = ClockSample { clock: 1000, irq_time: 100 };

/// Two processors: the first one runs the first task and has the second one for its idle task,
/// the second one runs its idle task, the fourth one. The third task is on no queue.
fn machine() -> (SchedCore, ProcessManager) {
    let mut pm = manager(4);
    let both = mask(&[0, 1]);
    let smp = SmpCpuManager { initialized: true, possible: both, present: both, online: both };
    let mut sched = sched_init(&mut pm, 0, smp, SystemState::Running);
    pm.actions.clear();
    pm.tasks[1].sched_info.policy = SchedPolicy::IDLE;
    pm.tasks[3].sched_info.policy = SchedPolicy::IDLE;
    pm.tasks[3].sched_info.cpu = cpu(1);
    pm.tasks[3].sched_info.on_cpu = Some(cpu(1));
    pm.tasks[0].sched_info.on_cpu = Some(cpu(0));
    pm.tasks[0].sched_info.on_rq = OnRq::Queued;
    pm.nr_running = 1;
    sched.rqs[0].set_current(0);
    sched.rqs[0].set_idle(Some(1));
    sched.rqs[0].nr_running = 1;
    sched.rqs[0].cfs.h_nr_running = 1;
    sched.rqs[1].set_current(3);
    sched.rqs[1].set_idle(Some(3));
    sched.idle_cpus = mask(&[1]);
    (sched, pm)
}

/// The same with the third task on the queue of the first processor.
fn busy_machine() -> (SchedCore, ProcessManager) {
    let (mut sched, mut pm) = machine();
    sched.rqs[0].activate_task::<Classes>(
        &mut pm,
        2,
        EnqueueFlag { bits: EnqueueFlag::ENQUEUE_NOCLOCK },
        NOW,
    );
    (sched, pm)
}

#[test]
fn rq_overload_clears_after_nr_running_drops_below_two() {
    let mut pm = manager(1);
    let mut rq = CpuRunQueue::new(ProcessorId::new(0), 0);
    let global_before = loadavg::nr_running(&pm);

    rq.add_nr_running(&mut pm, 2);
    assert!(rq.overload);
    assert_eq!(rq.nr_running, 2);

    rq.sub_nr_running(&mut pm, 1);
    assert!(!rq.overload);
    assert_eq!(rq.nr_running, 1);

    assert_eq!(loadavg::nr_running(&pm), global_before + 1);

    rq.sub_nr_running(&mut pm, 1);
    assert_eq!(rq.nr_running, 0);
    assert_eq!(loadavg::nr_running(&pm), global_before);
}

#[test]
fn fresh_run_queue() {
    let rq = CpuRunQueue::new(cpu(3), 10);
    assert_eq!(rq.cpu(), cpu(3));
    assert_eq!(rq.next_balance, 11);
    assert_eq!(rq.calc_load_update, 10 + 5 * HZ + 1);
    assert_eq!(rq.nr_running_lockless(), 0);
    assert_eq!(rq.current_ptr_lockless(), None);
    assert!(!rq.sched_idle_rq());
}

#[test]
fn clock_goes_forward_and_shares_its_time() {
    let mut rq = CpuRunQueue::new(cpu(0), 0);
    rq.update_rq_clock(cpu(0), ClockSample { clock: 1000, irq_time: 100 });
    assert_eq!((rq.clock, rq.clock_task(), rq.prev_irq_time), (1000, 900, 100));
    rq.update_rq_clock(cpu(0), ClockSample { clock: 1000, irq_time: 100 });
    assert_eq!((rq.clock, rq.clock_task(), rq.prev_irq_time), (1000, 900, 100));
    rq.update_rq_clock(cpu(0), ClockSample { clock: 500, irq_time: 900 });
    assert_eq!((rq.clock, rq.clock_task(), rq.prev_irq_time), (1000, 900, 100));
    rq.update_rq_clock(cpu(0), ClockSample { clock: 1010, irq_time: 900 });
    assert_eq!((rq.clock, rq.clock_task(), rq.prev_irq_time), (1010, 900, 110));
    rq.clock_updata_flags = ClockUpdataFlag { bits: ClockUpdataFlag::RQCF_ACT_SKIP };
    rq.update_rq_clock_from_clock(ClockSample { clock: 2000, irq_time: 900 });
    assert_eq!(rq.clock, 1010);
}

#[test]
fn run_queue_lock() {
    let mut pm = manager(1);
    let mut rq = CpuRunQueue::new(cpu(0), 0);
    let guard = rq.self_lock(&mut pm);
    assert!(rq.lock.is_locked());
    assert!(!pm.irq_enabled);
    assert!(rq.try_self_lock(&mut pm).is_none());
    rq.self_unlock(guard, &mut pm);
    assert!(!rq.lock.is_locked());
    assert!(pm.irq_enabled);
    assert_eq!(pm.preempt_count[0], 0);
}

#[test]
fn tasks_come_and_go() {
    let mut pm = manager(1);
    let mut rq = CpuRunQueue::new(cpu(0), 0);
    rq.add_nr_running(&mut pm, 1);
    rq.add_nr_running(&mut pm, 3);
    assert!(rq.overload);
    rq.sub_nr_running(&mut pm, 3);
    assert_eq!((rq.nr_running, rq.overload, pm.nr_running), (1, false, 1));
    rq.sub_nr_running(&mut pm, 5);
    assert_eq!((rq.nr_running, rq.overload, pm.nr_running), (0, false, 0));
}

#[test]
fn counts_of_sleeping_tasks() {
    let mut rq = CpuRunQueue::new(cpu(0), 0);
    rq.dec_nr_uninterruptible();
    assert_eq!(rq.nr_uninterruptible, -1);
    rq.dec_nr_iowait();
    assert_eq!(rq.nr_iowait(), 0);
    rq.nr_iowait = 2;
    rq.dec_nr_iowait();
    assert_eq!(rq.nr_iowait(), 1);
}

#[test]
fn run_queue_as_seen_without_its_lock() {
    let (mut sched, _) = machine();
    let rq = &mut sched.rqs[0];
    rq.cfs.load_avg = 1;
    rq.cfs.util_avg = 2;
    rq.cfs.runnable_avg = 3;
    assert_eq!(rq.cfs_load_avg_lockless(), 1);
    assert_eq!(rq.cfs_util_avg_lockless(), 2);
    assert_eq!(rq.cfs_runnable_avg_lockless(), 3);
    assert_eq!(rq.cfs_h_nr_running_lockless(), 1);
    assert_eq!(rq.cfs_rq().load_avg, 1);
    rq.cfs.idle_h_nr_running = 1;
    assert!(rq.sched_idle_rq());
    rq.lock.locked = true;
    rq.force_mut_locked().overload = true;
    assert!(rq.overload);
    rq.force_unlock();
    assert!(!rq.lock.is_locked());
}

#[test]
fn wake_queue_keeps_its_order() {
    let mut queue = WakeQueue::new();
    queue.push(3);
    queue.push(1);
    assert_eq!(queue.drain(), vec![3, 1]);
    assert!(queue.drain().is_empty());
    let (mut sched, mut pm) = machine();
    wakequeue_push_and_kick(&mut sched, &mut pm, cpu(1), 2);
    assert_eq!(dragonos_kernel::sched::percpu::cpu_wakequeue(&sched, 1).list, vec![2]);
}

#[test]
fn remote_queue_is_preempted_by_a_higher_class_only() {
    let (mut sched, mut pm) = machine();
    sched.rqs[1].check_preempt_remote::<Classes>(&mut pm, 2, WakeupFlags { bits: 0 });
    assert!(pm.tasks[3].flags.need_schedule);
    assert_eq!(pm.actions, vec![Action::ReschedIpi(cpu(1))]);
    sched.rqs[1].check_preempt_remote::<Classes>(&mut pm, 2, WakeupFlags { bits: 0 });
    assert_eq!(pm.actions.len(), 2);
    sched.rqs[0].check_preempt_remote::<Classes>(&mut pm, 2, WakeupFlags { bits: 0 });
    assert!(!pm.tasks[0].flags.need_schedule);
}

#[test]
fn tick_is_charged_to_the_running_task() {
    let (mut sched, mut pm) = machine();
    pm.update_process_times::<Classes>(&mut sched, true, NOW, 1, false);
    assert_eq!(pm.actions[0], Action::AccountTick { task: 0, user_tick: true });
    assert_eq!(
        pm.actions[1],
        Action::GlobalLoadTick { cpu: cpu(0), nr_running: 1, nr_uninterruptible: 0 }
    );
    assert_eq!(sched.rqs[0].clock, 1000);
}

#[test]
fn skip_request_takes_effect_once() {
    let asked = ClockUpdataFlag { bits: ClockUpdataFlag::RQCF_REQ_SKIP };
    let active = asked.promoted();
    assert!(active.contains(ClockUpdataFlag::RQCF_ACT_SKIP));
    assert!(!active.contains(ClockUpdataFlag::RQCF_REQ_SKIP));
}

#[test]
fn default_features() {
    let features = SchedFeature::enabled();
    assert!(features.contains(SchedFeature::GENTLE_FAIR_SLEEPERS));
    assert!(!features.contains(SchedFeature::NEXT_BUDDY));
}

#[test]
fn policies_are_ranked() {
    assert_eq!(SchedPolicy::from_u8(2), SchedPolicy::CFS);
    assert_eq!(SchedPolicy::IDLE.to_u8(), 3);
    assert!(SchedPolicy::FIFO.outranks(SchedPolicy::CFS));
    assert!(!SchedPolicy::CFS.outranks(SchedPolicy::CFS));
    assert!(!SchedPolicy::IDLE.outranks(SchedPolicy::CFS));
}

#[test]
fn priorities() {
    assert_eq!(PrioUtil::nice_to_prio(-20), 100);
    assert_eq!(PrioUtil::nice_to_prio(19), 139);
    assert_eq!(PrioUtil::prio_to_nice(PrioUtil::nice_to_prio(7)), 7);
    assert!(PrioUtil::rt_prio(99));
    assert!(!PrioUtil::rt_prio(100));
    assert!(PrioUtil::dl_prio(-1));
    assert!(!PrioUtil::dl_prio(0));
    assert_eq!(PrioUtil::normal_prio_for(SchedPolicy::CFS, 50, 5), 125);
    assert_eq!(PrioUtil::normal_prio_for(SchedPolicy::FIFO, 50, 5), 49);
}

#[test]
fn load_weights() {
    let mut load = LoadWeight { weight: 1024, inv_weight: 7 };
    load.update_load_add(1024);
    assert_eq!((load.weight, load.inv_weight), (2048, 0));
    load.update_load_sub(1024);
    assert_eq!((load.weight, load.inv_weight), (1024, 0));
    load.update_load_set(LoadWeight::NICE_0_LOAD);
    load.update_inv_weight();
    assert_eq!(load.inv_weight, 0xffff_ffff / 1024);
    assert_eq!(LoadWeight::scale_load(1024), LoadWeight::NICE_0_LOAD);
    assert_eq!(LoadWeight::scale_load_down(LoadWeight::NICE_0_LOAD), 1024);
    assert_eq!(LoadWeight::scale_load_down(2), 2);
    assert_eq!(LoadWeight::scale_load_down(0), 0);
}

#[test]
fn time_of_a_task_by_its_weight() {
    let mut total = LoadWeight { weight: LoadWeight::scale_load(2048), inv_weight: 0 };
    let delta = total.calculate_delta(1_000_000, LoadWeight::scale_load(1024));
    assert!(delta <= 500_000);
    assert!(delta >= 499_990);
}

#[test]
fn enqueued_and_dequeued_task() {
    let (sched, pm) = busy_machine();
    assert_eq!(pm.tasks[2].sched_info.on_rq, OnRq::Queued);
    assert_eq!(sched.rqs[0].nr_running, 2);
    assert!(sched.rqs[0].overload);
    assert_eq!(pm.nr_running, 2);
    let mut rq = sched.rqs[0];
    let mut pm = pm;
    rq.deactivate_task::<Classes>(
        &mut pm,
        2,
        DequeueFlag { bits: DequeueFlag::DEQUEUE_SLEEP | DequeueFlag::DEQUEUE_NOCLOCK },
        NOW,
    );
    assert_eq!(pm.tasks[2].sched_info.on_rq, OnRq::Unqueued);
    assert_eq!(rq.nr_running, 1);
}

#[test]
fn running_task_goes_on_when_nothing_else_runs() {
    let (mut sched, mut pm) = machine();
    pm.tasks[0].flags.need_schedule = true;
    assert!(need_resched(&pm));
    let none = SchedMode { bits: SchedMode::SM_NONE };
    assert!(!schedule::<Classes>(&mut sched, &mut pm, none, NOW));
    assert!(!need_resched(&pm));
    assert!(pm.irq_enabled);
    assert_eq!(pm.preempt_count[0], 0);
    assert!(!sched.rqs[0].lock.is_locked());
    assert_eq!(sched.rqs[0].clock, 1000);
}

#[test]
fn sleeping_task_makes_room_for_the_next_one() {
    let (mut sched, mut pm) = busy_machine();
    pm.tasks[0].sched_info.state = ProcessState::Blocked(true);
    pm.tasks[0].sched_info.mark_sleep = true;
    let none = SchedMode { bits: SchedMode::SM_NONE };
    assert!(schedule::<Classes>(&mut sched, &mut pm, none, NOW));
    assert_eq!(sched.rqs[0].current, Some(2));
    assert_eq!(sched.rqs[0].nr_running, 1);
    assert_eq!(pm.tasks[0].sched_info.on_rq, OnRq::Unqueued);
    assert_eq!(pm.tasks[2].sched_info.on_cpu, Some(cpu(0)));
    assert_eq!(pm.tasks[0].nvcsw, 1);
    assert_eq!(pm.tasks[0].nivcsw, 0);
    assert_eq!(pm.actions.last(), Some(&Action::SwitchProcess { prev: 0, next: 2 }));
    assert!(sched.rqs[0].lock.is_locked());
    assert!(!pm.irq_enabled);
}

#[test]
fn signal_keeps_a_task_from_sleeping() {
    let (mut sched, mut pm) = busy_machine();
    pm.tasks[0].sched_info.state = ProcessState::Blocked(true);
    pm.tasks[0].sched_info.mark_sleep = true;
    pm.tasks[0].has_pending_signal = true;
    let none = SchedMode { bits: SchedMode::SM_NONE };
    assert!(!schedule::<Classes>(&mut sched, &mut pm, none, NOW));
    assert_eq!(pm.tasks[0].sched_info.state, ProcessState::Runnable);
    assert_eq!(pm.tasks[0].sched_info.on_rq, OnRq::Queued);
}

#[test]
fn preempted_task_stays_on_the_queue() {
    let (mut sched, mut pm) = busy_machine();
    pm.tasks[0].sched_info.state = ProcessState::Blocked(true);
    pm.tasks[0].sched_info.mark_sleep = true;
    let preempt = SchedMode { bits: SchedMode::SM_PREEMPT };
    assert!(!__schedule::<Classes>(&mut sched, &mut pm, preempt, NOW));
    assert_eq!(pm.tasks[0].sched_info.on_rq, OnRq::Queued);
    assert_eq!(sched.rqs[0].nr_running, 2);
}

#[test]
fn idle_task_runs_when_the_last_task_sleeps() {
    let (mut sched, mut pm) = machine();
    pm.tasks[0].sched_info.state = ProcessState::Blocked(false);
    pm.tasks[0].sched_info.mark_sleep = true;
    let none = SchedMode { bits: SchedMode::SM_NONE };
    assert!(schedule::<Classes>(&mut sched, &mut pm, none, NOW));
    assert_eq!(sched.rqs[0].current, Some(1));
    assert!(sched.idle_cpus.contains(cpu(0)));
    assert_eq!(sched.rqs[0].nr_uninterruptible, 1);
    assert!(pm.tasks[0].flags.sched_contributes_to_load);
    assert!(is_idle_cpu(&sched, &pm, cpu(0)));
}

#[test]
fn sleep_for_input_is_counted() {
    let (mut sched, mut pm) = machine();
    pm.tasks[0].sched_info.state = ProcessState::Blocked(false);
    pm.tasks[0].sched_info.mark_sleep = true;
    assert!(io_schedule::<Classes>(&mut sched, &mut pm, NOW));
    assert!(pm.tasks[0].flags.in_iowait);
    assert_eq!(sched.rqs[0].nr_iowait(), 1);
    assert_eq!(nr_iowait(&sched), 1);
    assert!(!io_schedule_back::<Classes>(&mut sched, &mut pm, NOW));
    assert!(!pm.tasks[0].flags.in_iowait);
}

/// The machine once the running task is back from a switch.
fn back_from_a_switch() -> (SchedCore, ProcessManager) {
    let (mut sched, mut pm) = busy_machine();
    let none = SchedMode { bits: SchedMode::SM_NONE };
    pm.tasks[0].sched_info.state = ProcessState::Blocked(true);
    pm.tasks[0].sched_info.mark_sleep = true;
    assert!(schedule::<Classes>(&mut sched, &mut pm, none, NOW));
    sched.rqs[0].force_unlock();
    sched.rqs[0].set_current(0);
    pm.preempt_count[0] = 0;
    pm.irq_enabled = true;
    pm.actions.clear();
    pm.tasks[0].sched_info.state = ProcessState::Runnable;
    pm.tasks[0].sched_info.mark_sleep = false;
    (sched, pm)
}

#[test]
fn task_that_is_back_gives_up_the_processor_again_if_it_should() {
    let none = SchedMode { bits: SchedMode::SM_NONE };
    let (mut sched, mut pm) = back_from_a_switch();
    assert!(!schedule_back::<Classes>(&mut sched, &mut pm, none, NOW));
    assert_eq!(sched.rqs[0].current, Some(0));
    assert!(pm.actions.is_empty());
    pm.tasks[0].flags.need_schedule = true;
    assert!(schedule_back::<Classes>(&mut sched, &mut pm, none, NOW));
    assert_eq!(sched.rqs[0].current, Some(2));
    assert!(!pm.tasks[0].flags.need_schedule);
    assert!(pm.actions.contains(&Action::SwitchProcess { prev: 0, next: 2 }));
}

#[test]
fn task_keeps_its_mark_until_it_goes_on() {
    let (mut sched, mut pm) = back_from_a_switch();
    pm.tasks[0].flags.in_iowait = true;
    pm.tasks[0].flags.need_schedule = true;
    assert!(io_schedule_back::<Classes>(&mut sched, &mut pm, NOW));
    assert!(pm.tasks[0].flags.in_iowait);
}

#[test]
fn moving_task_is_forgotten_on_every_level() {
    let (mut sched, mut pm) = busy_machine();
    for parent in [None, Some(GroupEntity { group: 0, cpu: cpu(0) })] {
        let mut se = pm.tasks[0].sched_info.sched_entity;
        se.cfs_group = parent.map(|p: GroupEntity| p.group);
        se.parent = parent;
        let mut cfs = sched.rqs[0].cfs;
        cfs.current = Some(0);
        sched.task_groups.push(TaskGroup {
            entitys: vec![se; 128],
            cfs: vec![cfs; 128],
            parent: parent.map(|p| p.group),
            shares: 1024,
        });
    }
    sched.rqs[0].cfs.current = Some(0);
    pm.tasks[0].sched_info.sched_entity.cfs_group = Some(1);
    pm.tasks[0].sched_info.sched_entity.parent = Some(GroupEntity { group: 1, cpu: cpu(0) });
    assert_eq!(request_task_migration(&mut pm, 0, cpu(1)), Ok(()));
    let none = SchedMode { bits: SchedMode::SM_NONE };
    assert!(schedule::<Classes>(&mut sched, &mut pm, none, NOW));
    assert_eq!(sched.task_groups[1].cfs[0].current, None);
    assert_eq!(sched.task_groups[0].cfs[0].current, None);
    assert_eq!(sched.task_groups[1].cfs[1].current, Some(0));
    assert_eq!(sched.rqs[0].cfs.current, Some(2));
    let se = pm.tasks[0].sched_info.sched_entity;
    assert_eq!((se.cfs_rq, se.cfs_group), (cpu(1), None));
}

#[test]
fn tick_without_migration_asks_nothing_of_the_processor() {
    let (mut sched, mut pm) = machine();
    sched.smp.online = mask(&[1]);
    sched.wakequeues[0].list = vec![2];
    scheduler_tick::<Classes>(&mut sched, &mut pm, NOW, 1, false);
    assert_eq!(pm.tasks[2].sched_info.on_rq, OnRq::Queued);
}

#[test]
fn migration_request_is_taken_once() {
    let (_, mut pm) = machine();
    assert_eq!(request_task_migration(&mut pm, 0, cpu(1)), Ok(()));
    assert!(pm.tasks[0].flags.need_migrate);
    assert_eq!(take_current_migration_target(&mut pm, 0), Some(cpu(1)));
    assert_eq!(take_current_migration_target(&mut pm, 0), None);
}

#[test]
fn moving_task_is_handed_over_by_the_switch() {
    let (mut sched, mut pm) = busy_machine();
    assert_eq!(request_task_migration(&mut pm, 0, cpu(1)), Ok(()));
    pm.actions.clear();
    let none = SchedMode { bits: SchedMode::SM_NONE };
    assert!(schedule::<Classes>(&mut sched, &mut pm, none, NOW));
    assert_eq!(sched.rqs[0].current, Some(2));
    assert_eq!(sched.rqs[0].nr_running, 1);
    assert!(pm.actions.contains(&Action::MigrateAfterSwitch(cpu(1))));
}

#[test]
fn drained_queue_keeps_the_tasks_that_still_run() {
    let (mut sched, mut pm) = machine();
    pm.tasks[1].sched_info.state = ProcessState::Exited(0);
    pm.tasks[2].flags.sched_contributes_to_load = true;
    pm.tasks[2].sched_info.cpu = cpu(1);
    sched.wakequeues[0].list = vec![3, 0, 1, 2, 3];
    sched.rqs[0].ttwu_pending = true;
    scheduler_tick::<Classes>(&mut sched, &mut pm, NOW, 1, false);
    assert_eq!(sched.wakequeues[0].list, vec![3, 3]);
    assert!(sched.rqs[0].ttwu_pending);
    assert!(!sched.rqs[0].lock.is_locked());
    assert_eq!(pm.tasks[2].sched_info.on_rq, OnRq::Queued);
    assert_eq!(pm.tasks[2].sched_info.cpu, cpu(0));
    assert!(!pm.tasks[2].flags.sched_contributes_to_load);
    assert_eq!(pm.tasks[2].sched_info.sched_entity.util_avg, 512);
    assert_eq!(pm.tasks[1].sched_info.on_rq, OnRq::Unqueued);
}

#[test]
fn fair_class_is_told_of_the_next_task() {
    let (mut sched, mut pm) = busy_machine();
    let mut rq = sched.rqs[0];
    pm.tasks[0].sched_info.on_rq = OnRq::Unqueued;
    assert_eq!(rq.pick_next_task::<Classes>(&mut pm, 0), 2);
    assert_eq!(rq.cfs.current, Some(2));
    assert_eq!(sched.rqs[0].cfs.current, None);
    pm.tasks[2].sched_info.on_rq = OnRq::Unqueued;
    sched.rqs[0] = rq;
    assert_eq!(sched.rqs[0].pick_next_task::<Classes>(&mut pm, 0), 1);
}

#[test]
fn processor_without_domains_is_not_balanced() {
    let (mut sched, _) = machine();
    let round = rebalance_domains(&mut sched, cpu(0), CpuIdleType::Idle, u64::MAX);
    assert_eq!(round.at, None);
    assert_eq!(sched.rqs[0].next_balance, 1);
}

#[test]
fn woken_task_waits_for_its_processor() {
    let (mut sched, mut pm) = machine();
    ttwu_queue(&mut sched, &mut pm, 2, cpu(0), WakeupFlags { bits: 0 });
    assert_eq!(pm.actions, vec![Action::ReschedIpi(cpu(0))]);
    assert!(sched.rqs[0].ttwu_pending);
    assert_eq!(sched.wakequeues[0].list, vec![2]);
    pm.actions.clear();
    scheduler_tick::<Classes>(&mut sched, &mut pm, NOW, 1, true);
    assert!(sched.wakequeues[0].list.is_empty());
    assert!(!sched.rqs[0].ttwu_pending);
    assert_eq!(pm.tasks[2].sched_info.on_rq, OnRq::Queued);
    assert_eq!(sched.rqs[0].nr_running, 2);
    assert!(pm.tasks[0].flags.need_schedule);
    assert_eq!(pm.tasks[0].sched_info.sched_entity.util_avg, 1);
}

#[test]
fn new_task_is_woken_here_or_there() {
    let (mut sched, mut pm) = machine();
    wake_up_new_task::<Classes>(&mut sched, &mut pm, 2, cpu(0), NOW);
    assert_eq!(pm.tasks[2].sched_info.on_rq, OnRq::Queued);
    assert_eq!(sched.rqs[0].nr_running, 2);
    let (mut sched, mut pm) = machine();
    wake_up_new_task::<Classes>(&mut sched, &mut pm, 2, cpu(1), NOW);
    assert_eq!(pm.tasks[2].sched_info.on_rq, OnRq::Unqueued);
    assert_eq!(pm.tasks[2].sched_info.cpu, cpu(1));
    assert_eq!(sched.wakequeues[1].list, vec![2]);
    assert_eq!(pm.actions, vec![Action::ReschedIpi(cpu(1))]);
    let (mut sched, mut pm) = machine();
    let none = ProcessorId::new(ProcessorId::INVALID);
    wake_up_new_task::<Classes>(&mut sched, &mut pm, 2, none, NOW);
    assert_eq!(pm.tasks[2].sched_info.cpu, cpu(0));
}

#[test]
fn forked_task_gets_its_priority_from_its_parent() {
    let (mut sched, mut pm) = machine();
    pm.tasks[0].sched_info.static_prio = 110;
    pm.tasks[0].sched_info.normal_prio = 110;
    let load = LoadWeight { weight: 9548 << 10, inv_weight: 0 };
    assert_eq!(sched_fork::<Classes>(&mut pm, 2), Ok(()));
    assert_eq!(pm.tasks[2].sched_info.static_prio, 110);
    assert_eq!(pm.tasks[2].sched_info.policy, SchedPolicy::CFS);
    assert_eq!(pm.tasks[2].sched_info.sched_entity.load, load);
    assert_eq!(pm.tasks[2].sched_info.sched_entity.util_avg, 0);
    assert!(pm.actions.is_empty());
    sched_cgroup_fork::<Classes>(&mut sched, &mut pm, 2);
    assert_eq!(pm.tasks[2].sched_info.sched_entity.util_avg, 7);
    assert!(pm.irq_enabled);
    pm.tasks[0].sched_info.normal_prio = -1;
    assert_eq!(sched_fork::<Classes>(&mut pm, 2), Err(SystemError::EAGAIN_OR_EWOULDBLOCK));
    pm.tasks[0].sched_info.normal_prio = 50;
    pm.tasks[0].sched_info.policy = SchedPolicy::FIFO;
    assert_eq!(sched_fork::<Classes>(&mut pm, 2), Ok(()));
    assert_eq!(pm.tasks[2].sched_info.policy, SchedPolicy::FIFO);
}

#[test]
fn yielding_task_gives_way() {
    let (mut sched, mut pm) = busy_machine();
    pm.tasks[0].sched_info.state = ProcessState::Runnable;
    assert!(!sched_yield::<Classes>(&mut sched, &mut pm, NOW));
    assert!(pm.irq_enabled);
    assert_eq!(pm.preempt_count[0], 0);
}

#[test]
fn lowest_idle_processor_is_picked() {
    let (mut sched, pm) = machine();
    assert_eq!(pick_idle_cpu(&sched, &mask(&[0, 1])), Some(cpu(1)));
    assert_eq!(pick_idle_cpu(&sched, &mask(&[0])), None);
    sched.smp.online = mask(&[0]);
    assert_eq!(pick_idle_cpu(&sched, &mask(&[0, 1])), None);
    assert!(!cpu_is_online(&sched, cpu(1)));
    sched.smp.initialized = false;
    assert_eq!(pick_idle_cpu(&sched, &mask(&[0, 1])), Some(cpu(1)));
    assert!(!is_idle_cpu(&sched, &pm, cpu(0)));
    assert!(is_idle_cpu(&sched, &pm, cpu(1)));
    sched.rqs[1].ttwu_pending = true;
    assert!(!is_idle_cpu(&sched, &pm, cpu(1)));
}

#[test]
fn task_moves_to_the_fair_queue_of_its_processor() {
    let (sched, mut pm) = machine();
    __set_task_cpu(&sched, &mut pm, 2, cpu(1));
    assert_eq!(task_cpu(&pm, 2), cpu(1));
    assert_eq!(pm.tasks[2].sched_info.sched_entity.cfs_rq, cpu(1));
    assert!(!boot_in_progress(&sched));
}

#[test]
fn time_spent_in_interrupts() {
    let (mut sched, _) = machine();
    cpu_irq_time(&mut sched, cpu(1)).total = 5;
    assert_eq!(sched.irq_times[1].total, 5);
    assert_eq!(sched.irq_times[0].total, 0);
}

#[test]
fn shown_priority() {
    let (_, mut pm) = machine();
    let call = SysSchedGetparam;
    assert_eq!(call.num_args(), 2);
    let shown = |pm: &ProcessManager, pid: usize| {
        SysSchedGetparam.handle(pm, &vec![pid, 0x1000], true).map(|p| p.sched_priority)
    };
    assert_eq!(shown(&pm, 0), Ok(0));
    pm.tasks[2].sched_info.policy = SchedPolicy::FIFO;
    pm.tasks[2].sched_info.rt_priority = 50;
    assert_eq!(shown(&pm, 3), Ok(50));
    pm.tasks[2].sched_info.rt_priority = 0;
    assert_eq!(shown(&pm, 3), Ok(1));
    pm.tasks[2].sched_info.rt_priority = 100;
    assert_eq!(shown(&pm, 3), Ok(99));
    assert_eq!(shown(&pm, 77), Err(SystemError::ESRCH));
    assert!(matches!(call.handle(&pm, &vec![0, 0], true), Err(SystemError::EFAULT)));
    assert!(matches!(call.handle(&pm, &vec![0, 1], false), Err(SystemError::EPERM)));
}

/// Two levels of balancing over the machine.
fn domains(sched: &mut SchedCore) {
    let group = SchedGroup { cpumask: mask(&[0, 1]) };
    let low = SchedDomain {
        balance_interval: 8,
        busy_factor: 16,
        last_balance: 0,
        groups: Some(group),
        parent: Some(1),
    };
    sched.domains = vec![low, SchedDomain { balance_interval: 40, parent: None, ..low }];
    sched.rqs[0].set_sched_domain(Some(0));
}

#[test]
fn balance_intervals() {
    let (mut sched, _) = machine();
    domains(&mut sched);
    assert_eq!(max_load_balance_interval(&sched), 50);
    assert_eq!(get_sd_balance_interval(&sched, &sched.domains[0], false), 2);
    assert_eq!(get_sd_balance_interval(&sched, &sched.domains[0], true), 31);
    assert_eq!(get_sd_balance_interval(&sched, &sched.domains[1], true), 50);
    let none = SchedDomain { balance_interval: 0, ..sched.domains[0] };
    assert_eq!(get_sd_balance_interval(&sched, &none, false), 1);
}

#[test]
fn balancing_is_due_in_time() {
    let (mut sched, _) = machine();
    assert_eq!(trigger_load_balance(&sched.rqs[0], 100, true), None);
    domains(&mut sched);
    assert_eq!(trigger_load_balance(&sched.rqs[0], 0, true), None);
    assert_eq!(trigger_load_balance(&sched.rqs[0], 100, false), None);
    assert_eq!(
        trigger_load_balance(&sched.rqs[0], 100, true),
        Some((cpu(0), CpuIdleType::NotIdle))
    );
    sched.rqs[0].nr_running = 0;
    assert_eq!(
        trigger_load_balance(&sched.rqs[0], 100, true),
        Some((cpu(0), CpuIdleType::Idle))
    );
}

#[test]
fn round_of_balancing() {
    let (mut sched, pm) = machine();
    domains(&mut sched);
    sched.domains[1].last_balance = 95;
    let mut round = rebalance_domains(&mut sched, cpu(0), CpuIdleType::Idle, 100);
    assert_eq!(round.at, Some(0));
    round.balanced(&mut sched, &pm, false, true);
    assert_eq!(round.at, None);
    assert_eq!(sched.domains[0].last_balance, 100);
    assert_eq!(sched.domains[1].last_balance, 95);
    assert_eq!(sched.rqs[0].next_balance, 102);
    let round = rebalance_domains(&mut sched, cpu(0), CpuIdleType::Idle, 100);
    assert_eq!(round.at, None);
}

#[test]
fn round_of_balancing_is_broken_off() {
    let (mut sched, pm) = machine();
    domains(&mut sched);
    let mut round = rebalance_domains(&mut sched, cpu(0), CpuIdleType::Idle, 100);
    assert_eq!(round.at, Some(0));
    round.balanced(&mut sched, &pm, true, false);
    assert_eq!(round.at, None);
    assert_eq!(round.idle, CpuIdleType::NotIdle);
    assert!(round.busy);
    assert_eq!(sched.domains[1].last_balance, 0);
}

#[test]
fn idle_processor_of_a_group_balances() {
    let (mut sched, pm) = machine();
    domains(&mut sched);
    let env = LbEnv {
        idle: CpuIdleType::NotIdle,
        sd: Some(sched.domains[0]),
        cpus: mask(&[0, 1]),
        dst_cpu: cpu(0),
    };
    assert!(!should_we_balance(&sched, &pm, &env));
    assert!(should_we_balance(&sched, &pm, &LbEnv { dst_cpu: cpu(1), ..env }));
    assert!(should_we_balance(&sched, &pm, &LbEnv { idle: CpuIdleType::NewlyIdle, ..env }));
    assert!(!should_we_balance(&sched, &pm, &LbEnv { sd: None, ..env }));
    assert!(!should_we_balance(&sched, &pm, &LbEnv { cpus: mask(&[]), dst_cpu: cpu(1), ..env }));
    sched.rqs[1].nr_running = 1;
    assert!(should_we_balance(&sched, &pm, &env));
    assert_eq!(group_balance_cpu(&SchedGroup { cpumask: mask(&[5, 3]) }), Some(cpu(3)));
}
