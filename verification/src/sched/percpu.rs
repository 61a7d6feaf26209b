//! What the scheduler keeps of all processors.
use crate::process::action::Action;
use crate::process::manager::{ProcessManager, ProcessManagerView};
use crate::process::pcb::{ProcessControlBlock, TaskId};
use crate::sched::domain::SchedDomain;
use crate::sched::entity::{FairSchedEntity, GroupEntity, ProcessSchedulerInfo};
use crate::sched::policy::{OnRq, SchedPolicy};
use crate::sched::rq::{CfsRunQueue, CpuRunQueue, HZ};
use crate::smp::cpu::{CpuMask, ProcessorId, SmpCpuManager, MAX_CPU_NUM};
use vstd::prelude::*;

verus! {

pub const SCHED_FIXEDPOINT_SHIFT: u64 = 10;

pub const SCHED_FIXEDPOINT_SCALE: u64 = 1024;

pub const SCHED_CAPACITY_SHIFT: u64 = 10;

pub const SCHED_CAPACITY_SCALE: u64 = 1024;

/// How far the system has come up.
#[derive(Debug, Clone, Copy, PartialEq, Eq, Structural)]
pub enum SystemState {
    Booting,
    Scheduling,
    FreeingInitMem,
    Running,
}

/// The time that a processor spent in interrupts.
#[derive(Debug, Clone, Copy, PartialEq, Eq, Structural)]
pub struct IrqTime {
    pub total: u64,
}

/// A group of tasks that share processor time.
pub struct TaskGroup {
    /// What the fair class keeps of the group on each processor.
    pub entitys: Vec<FairSchedEntity>,
    /// The fair run queues of the group, one for each processor.
    pub cfs: Vec<CfsRunQueue>,
    /// The place of the group that this one belongs to.
    pub parent: Option<usize>,
    pub shares: u64,
}

/// A `TaskGroup` as a mathematical value.
#[verifier::ext_equal]
pub struct TaskGroupView {
    pub entitys: Seq<FairSchedEntity>,
    pub cfs: Seq<CfsRunQueue>,
    pub parent: Option<usize>,
    pub shares: u64,
}

impl View for TaskGroup {
    type V = TaskGroupView;

    open spec fn view(&self) -> TaskGroupView {
        TaskGroupView {
            entitys: self.entitys@,
            cfs: self.cfs@,
            parent: self.parent,
            shares: self.shares,
        }
    }
}

impl TaskGroupView {
    /// The group with no task of it running on a processor.
    pub open spec fn current_forgotten(self, cpu: ProcessorId) -> TaskGroupView {
        TaskGroupView {
            cfs: self.cfs.update(
                cpu.id as int,
                CfsRunQueue { current: None, ..self.cfs[cpu.id as int] },
            ),
            ..self
        }
    }
}

impl TaskGroup {
    /// Notes that no task of the group runs on a processor.
    pub fn forget_current(&mut self, cpu: ProcessorId)
        requires
            cpu.id < old(self)@.cfs.len(),
        ensures
            final(self)@ == old(self)@.current_forgotten(cpu),
    {
        let mut cfs = self.cfs[cpu.id as usize];
        cfs.current = None;
        self.cfs[cpu.id as usize] = cfs;
    }
}

/// Every group has a queue and a record for every processor slot, and counts for a group
/// that was there before it, if for any.
#[verifier::opaque]
pub open spec fn groups_wf(groups: Seq<TaskGroupView>) -> bool {
    &&& forall|g: int|
        0 <= g < groups.len() ==> (#[trigger] groups[g]).entitys.len() == MAX_CPU_NUM
            && groups[g].cfs.len() == MAX_CPU_NUM
    &&& forall|g: int, c: int|
        0 <= g < groups.len() && 0 <= c < MAX_CPU_NUM ==> (#[trigger] groups[g].entitys[c]).fits(
            groups.len(),
        ) && groups[g].entitys[c].level() <= g
}

/// The groups with no task of one of them running on a processor.
pub open spec fn group_forgotten(
    groups: Seq<TaskGroupView>,
    g: int,
    cpu: ProcessorId,
) -> Seq<TaskGroupView> {
    groups.update(g, groups[g].current_forgotten(cpu))
}

/// Forgetting what runs leaves the records of the groups alone.
pub proof fn lemma_group_forgotten(groups: Seq<TaskGroupView>, g: int, cpu: ProcessorId)
    requires
        groups_wf(groups),
        0 <= g < groups.len(),
        cpu.id < MAX_CPU_NUM,
    ensures
        groups_wf(group_forgotten(groups, g, cpu)),
        groups[g].cfs.len() == MAX_CPU_NUM,
        forall|h: int|
            0 <= h < groups.len() ==> (#[trigger] group_forgotten(groups, g, cpu)[h]).entitys
                == groups[h].entitys,
{
    reveal(groups_wf);
    let after = group_forgotten(groups, g, cpu);
    assert forall|h: int, c: int| 0 <= h < after.len() && 0 <= c < MAX_CPU_NUM implies (
    #[trigger] after[h].entitys[c]).fits(after.len()) && after[h].entitys[c].level() <= h by {
        assert(after[h].entitys[c] == groups[h].entitys[c]);
    }
}

/// The record of a group on a processor is in order.
pub proof fn lemma_group_entity(groups: Seq<TaskGroupView>, e: GroupEntity)
    requires
        groups_wf(groups),
        e.group < groups.len(),
        e.cpu.id < MAX_CPU_NUM,
    ensures
        groups[e.group as int].entitys.len() == MAX_CPU_NUM,
        groups[e.group as int].entitys[e.cpu.id as int].fits(groups.len()),
        groups[e.group as int].entitys[e.cpu.id as int].level() <= e.group,
{
    reveal(groups_wf);
}

/// Tasks that were woken for a processor by another one, which must not touch
/// its run queue.
#[derive(Debug)]
pub struct WakeQueue {
    pub list: Vec<TaskId>,
}

impl View for WakeQueue {
    type V = Seq<TaskId>;

    open spec fn view(&self) -> Seq<TaskId> {
        self.list@
    }
}

impl WakeQueue {
    pub fn new() -> (wq: WakeQueue)
        ensures
            wq@ == Seq::<TaskId>::empty(),
    {
        WakeQueue { list: Vec::new() }
    }

    /// Adds a task at the end.
    pub fn push(&mut self, t: TaskId)
        ensures
            final(self)@ == old(self)@.push(t),
    {
        self.list.push(t);
    }

    /// Takes all tasks out, in the order in which they came.
    pub fn drain(&mut self) -> (list: Vec<TaskId>)
        ensures
            list@ == old(self)@,
            final(self)@ == Seq::<TaskId>::empty(),
    {
        let mut list: Vec<TaskId> = Vec::new();
        std::mem::swap(&mut list, &mut self.list);
        list
    }
}

/// What the scheduler keeps of all processors.
pub struct SchedCore {
    /// The run queues, by processor.
    pub rqs: Vec<CpuRunQueue>,
    /// The wake queues, by processor.
    pub wakequeues: Vec<WakeQueue>,
    /// The time spent in interrupts, by processor.
    pub irq_times: Vec<IrqTime>,
    /// The processors whose idle task runs.
    pub idle_cpus: CpuMask,
    pub domains: Vec<SchedDomain>,
    /// The groups of tasks that share processor time.
    pub task_groups: Vec<TaskGroup>,
    pub smp: SmpCpuManager,
    pub system_state: SystemState,
}

/// A `SchedCore` as a mathematical value.
#[verifier::ext_equal]
pub struct SchedCoreView {
    pub rqs: Seq<CpuRunQueue>,
    pub wakequeues: Seq<Seq<TaskId>>,
    pub irq_times: Seq<IrqTime>,
    pub idle_cpus: CpuMask,
    pub domains: Seq<SchedDomain>,
    pub task_groups: Seq<TaskGroupView>,
    pub smp: SmpCpuManager,
    pub system_state: SystemState,
}

impl View for SchedCore {
    type V = SchedCoreView;

    open spec fn view(&self) -> SchedCoreView {
        SchedCoreView {
            rqs: self.rqs@,
            wakequeues: self.wakequeues@.map_values(|wq: WakeQueue| wq@),
            irq_times: self.irq_times@,
            idle_cpus: self.idle_cpus,
            domains: self.domains@,
            task_groups: self.task_groups@.map_values(|g: TaskGroup| g@),
            smp: self.smp,
            system_state: self.system_state,
        }
    }
}

impl SchedCoreView {
    /// There is a run queue and a wake queue for every processor slot, each run
    /// queue knows its processor, and the domains of a processor are levels that
    /// lead upwards.
    pub open spec fn wf(self) -> bool {
        &&& self.rqs.len() == MAX_CPU_NUM
        &&& self.wakequeues.len() == MAX_CPU_NUM
        &&& self.irq_times.len() == MAX_CPU_NUM
        &&& forall|i: int| 0 <= i < MAX_CPU_NUM ==> #[trigger] self.rqs[i].cpu.id == i
        &&& forall|i: int| 0 <= i < MAX_CPU_NUM ==> #[trigger] self.rqs[i].clock_wf()
        &&& forall|i: int|
            0 <= i < MAX_CPU_NUM && self.rqs[i].sched_domain is Some ==> (#[trigger] self.rqs[i])
                .sched_domain->Some_0 < self.domains.len()
        &&& forall|d: int|
            0 <= d < self.domains.len() && self.domains[d].parent is Some ==> d < (
            #[trigger] self.domains[d]).parent->Some_0 < self.domains.len()
        &&& groups_wf(self.task_groups)
    }

    /// The run queue of a processor.
    pub open spec fn rq(self, cpu: ProcessorId) -> CpuRunQueue {
        self.rqs[cpu.id as int]
    }

    /// The same with another run queue for a processor.
    pub open spec fn with_rq(self, cpu: ProcessorId, rq: CpuRunQueue) -> SchedCoreView {
        SchedCoreView { rqs: self.rqs.update(cpu.id as int, rq), ..self }
    }

    /// The wake queue of a processor.
    pub open spec fn wakequeue(self, cpu: ProcessorId) -> Seq<TaskId> {
        self.wakequeues[cpu.id as int]
    }

    /// The same with another wake queue for a processor.
    pub open spec fn with_wakequeue(self, cpu: ProcessorId, list: Seq<TaskId>) -> SchedCoreView {
        SchedCoreView { wakequeues: self.wakequeues.update(cpu.id as int, list), ..self }
    }

    /// The same with another set of idle processors.
    pub open spec fn with_idle(self, cpu: ProcessorId, idle: bool) -> SchedCoreView {
        SchedCoreView { idle_cpus: self.idle_cpus.with(cpu, idle), ..self }
    }

    pub open spec fn boot_in_progress(self) -> bool {
        self.system_state == SystemState::Booting || self.system_state == SystemState::Scheduling
            || self.system_state == SystemState::FreeingInitMem
    }

    /// Whether tasks may be placed on a processor: it runs tasks, or the system is
    /// still coming up.
    pub open spec fn accepts_tasks(self, cpu: ProcessorId) -> bool {
        self.smp.initialized && !self.boot_in_progress() ==> self.smp.is_online_cpu(cpu)
    }

    /// Whether a processor is idle: its idle task runs, it has no task, and none
    /// waits to be woken on it.
    pub open spec fn is_idle_cpu(self, pm: ProcessManagerView, cpu: ProcessorId) -> bool {
        let rq = self.rq(cpu);
        &&& !cpu.is_invalid()
        &&& pm.upgrade(rq.idle) is Some
        &&& pm.upgrade(rq.idle) == rq.current_ptr
        &&& rq.nr_running == 0
        &&& !rq.ttwu_pending
    }

    /// Another run queue for a processor keeps the tables in order.
    pub proof fn lemma_with_rq(self, cpu: ProcessorId, rq: CpuRunQueue)
        requires
            self.wf(),
            cpu.id < MAX_CPU_NUM,
            rq.cpu == cpu,
            rq.clock_wf(),
            rq.sched_domain is Some ==> rq.sched_domain->Some_0 < self.domains.len(),
        ensures
            self.with_rq(cpu, rq).wf(),
    {
    }

    /// Another wake queue for a processor keeps the tables in order.
    pub proof fn lemma_with_wakequeue(self, cpu: ProcessorId, list: Seq<TaskId>)
        requires
            self.wf(),
            cpu.id < MAX_CPU_NUM,
        ensures
            self.with_wakequeue(cpu, list).wf(),
    {
    }

    /// The number of tasks that sleep for input or output on the processors below
    /// slot `n` that are there.
    pub open spec fn nr_iowait_below(self, n: int) -> int
        decreases n,
    {
        if n <= 0 {
            0
        } else {
            self.nr_iowait_below(n - 1) + if self.smp.present.has(n - 1) {
                self.rqs[n - 1].nr_iowait as int
            } else {
                0
            }
        }
    }

    /// Counting more processors never counts fewer tasks.
    pub proof fn lemma_nr_iowait_grows(self, m: int, n: int)
        requires
            m <= n,
        ensures
            self.nr_iowait_below(m) <= self.nr_iowait_below(n),
        decreases n - m,
    {
        if m < n {
            self.lemma_nr_iowait_grows(m, n - 1);
        }
    }
}

impl SchedCore {
    /// Replaces the run queue of a processor.
    pub fn set_rq(&mut self, cpu: ProcessorId, rq: CpuRunQueue)
        requires
            cpu.id < old(self)@.rqs.len(),
        ensures
            final(self)@ == old(self)@.with_rq(cpu, rq),
    {
        self.rqs[cpu.id as usize] = rq;
    }

    /// Adds a task to the wake queue of a processor.
    pub fn push_wakequeue(&mut self, cpu: ProcessorId, t: TaskId)
        requires
            cpu.id < old(self)@.wakequeues.len(),
        ensures
            final(self)@ == old(self)@.with_wakequeue(cpu, old(self)@.wakequeue(cpu).push(t)),
    {
        self.wakequeues[cpu.id as usize].push(t);
        assert(self@.wakequeues =~= old(self)@.with_wakequeue(
            cpu,
            old(self)@.wakequeue(cpu).push(t),
        ).wakequeues);
    }

    /// Takes all tasks out of the wake queue of a processor.
    pub fn drain_wakequeue(&mut self, cpu: ProcessorId) -> (list: Vec<TaskId>)
        requires
            cpu.id < old(self)@.wakequeues.len(),
        ensures
            list@ == old(self)@.wakequeue(cpu),
            final(self)@ == old(self)@.with_wakequeue(cpu, Seq::empty()),
    {
        let list = self.wakequeues[cpu.id as usize].drain();
        assert(self@.wakequeues =~= old(self)@.with_wakequeue(cpu, Seq::empty()).wakequeues);
        list
    }

    /// Notes that no task of a group runs on a processor.
    pub fn forget_group_current(&mut self, g: usize, cpu: ProcessorId)
        requires
            groups_wf(old(self)@.task_groups),
            g < old(self)@.task_groups.len(),
            cpu.id < MAX_CPU_NUM,
        ensures
            final(self)@ == (SchedCoreView {
                task_groups: group_forgotten(old(self)@.task_groups, g as int, cpu),
                ..old(self)@
            }),
    {
        proof {
            lemma_group_forgotten(self@.task_groups, g as int, cpu);
        }
        self.task_groups[g].forget_current(cpu);
        assert(self@.task_groups =~= group_forgotten(old(self)@.task_groups, g as int, cpu));
    }

    /// What the fair class keeps of a group on a processor.
    pub fn group_entity(&self, e: GroupEntity) -> (se: FairSchedEntity)
        requires
            groups_wf(self@.task_groups),
            e.group < self@.task_groups.len(),
            e.cpu.id < MAX_CPU_NUM,
        ensures
            se == self@.task_groups[e.group as int].entitys[e.cpu.id as int],
    {
        proof {
            lemma_group_entity(self@.task_groups, e);
        }
        self.task_groups[e.group].entitys[e.cpu.id as usize]
    }

    /// Notes whether the idle task of a processor runs.
    pub fn set_idle_cpu(&mut self, cpu: ProcessorId, idle: bool)
        ensures
            final(self)@ == old(self)@.with_idle(cpu, idle),
    {
        let _ = self.idle_cpus.set(cpu, idle);
    }
}

/// The time that a processor spent in interrupts.
pub fn cpu_irq_time(sched: &mut SchedCore, cpu: ProcessorId) -> (time: &mut IrqTime)
    requires
        cpu.id < old(sched)@.irq_times.len(),
    ensures
        *time == old(sched)@.irq_times[cpu.id as int],
        final(sched)@ == (SchedCoreView {
            irq_times: old(sched)@.irq_times.update(cpu.id as int, *final(time)),
            ..old(sched)@
        }),
{
    &mut sched.irq_times[cpu.id as usize]
}

/// The run queue of a processor.
pub fn cpu_rq(sched: &SchedCore, cpu: usize) -> (rq: CpuRunQueue)
    requires
        sched@.wf(),
        cpu < MAX_CPU_NUM,
    ensures
        rq == sched@.rqs[cpu as int],
        rq.cpu.id == cpu,
        rq.clock_wf(),
{
    sched.rqs[cpu]
}

/// The wake queue of a processor.
pub fn cpu_wakequeue(sched: &SchedCore, cpu: usize) -> (wq: &WakeQueue)
    requires
        sched@.wf(),
        cpu < MAX_CPU_NUM,
    ensures
        wq@ == sched@.wakequeues[cpu as int],
{
    &sched.wakequeues[cpu]
}

/// Whether this is the idle task of a processor.
pub fn task_is_idle(pcb: &ProcessControlBlock) -> (b: bool)
    ensures
        b == (pcb.sched_info.policy == SchedPolicy::IDLE),
{
    pcb.sched_info.policy == SchedPolicy::IDLE
}

/// Whether a processor runs tasks.
pub fn cpu_is_online(sched: &SchedCore, cpu: ProcessorId) -> (b: bool)
    ensures
        b == sched@.smp.is_online_cpu(cpu),
{
    sched.smp.is_online_cpu(cpu)
}

/// Whether the system is still coming up.
pub fn boot_in_progress(sched: &SchedCore) -> (b: bool)
    ensures
        b == sched@.boot_in_progress(),
{
    match sched.system_state {
        SystemState::Booting | SystemState::Scheduling | SystemState::FreeingInitMem => true,
        SystemState::Running => false,
    }
}

/// The lowest idle processor in `allowed`. Once the processors have been counted,
/// it has to run tasks.
pub fn pick_idle_cpu(sched: &SchedCore, allowed: &CpuMask) -> (cpu: Option<ProcessorId>)
    ensures
        match cpu {
            Some(c) => sched@.is_candidate(*allowed, c.id as int) && forall|j: int|
                0 <= j < c.id ==> !#[trigger] sched@.is_candidate(*allowed, j),
            None => forall|j: int| !#[trigger] sched@.is_candidate(*allowed, j),
        },
{
    if !sched.smp.initialized {
        let cpu = sched.idle_cpus.first_and(allowed);
        assert(cpu is None ==> forall|j: int|
            #[trigger] sched@.is_candidate(*allowed, j) ==> sched.idle_cpus.has(j));
        assert(cpu is Some ==> forall|j: int|
            #[trigger] sched@.is_candidate(*allowed, j) ==> sched.idle_cpus.has(j));
        return cpu;
    }
    let mut i: u32 = 0;
    while i < MAX_CPU_NUM
        invariant
            i <= MAX_CPU_NUM,
            sched.smp.initialized,
            forall|j: int| 0 <= j < i ==> !#[trigger] sched@.is_candidate(*allowed, j),
        decreases MAX_CPU_NUM - i,
    {
        let cpu = ProcessorId::new(i);
        if allowed.contains(cpu) && sched.idle_cpus.contains(cpu) && cpu_is_online(sched, cpu) {
            return Some(cpu);
        }
        i = i + 1;
    }
    None
}

impl SchedCoreView {
    /// Whether the processor in slot `j` is allowed, idle, and fit to run tasks as
    /// far as that is known.
    pub open spec fn is_candidate(self, allowed: CpuMask, j: int) -> bool {
        &&& allowed.has(j)
        &&& self.idle_cpus.has(j)
        &&& self.smp.initialized ==> self.smp.online.has(j)
    }
}

/// The processor that a task belongs to.
pub fn task_cpu(pm: &ProcessManager, t: TaskId) -> (cpu: ProcessorId)
    requires
        pm@.has(t),
    ensures
        cpu == pm@.task(t).sched_info.cpu,
{
    pm.tasks[t].sched_info.cpu
}

/// Whether a processor is idle.
pub fn is_idle_cpu(sched: &SchedCore, pm: &ProcessManager, cpu: ProcessorId) -> (b: bool)
    requires
        sched@.wf(),
        cpu.is_invalid() || cpu.id < MAX_CPU_NUM,
    ensures
        b == sched@.is_idle_cpu(pm@, cpu),
{
    if cpu.is_invalid() {
        return false;
    }
    let rq = cpu_rq(sched, cpu.data() as usize);
    let curr = rq.current_ptr_lockless();
    let is_idle_task = match pm.upgrade(rq.idle()) {
        Some(idle) => match curr {
            Some(c) => idle == c,
            None => false,
        },
        None => false,
    };
    if !is_idle_task {
        return false;
    }
    if rq.nr_running_lockless() != 0 {
        return false;
    }
    if rq.ttwu_pending {
        return false;
    }
    true
}

impl ProcessControlBlock {
    pub open spec fn spec_placed_on(&self, cpu: ProcessorId) -> ProcessControlBlock {
        let info = self.sched_info;
        ProcessControlBlock {
            sched_info: ProcessSchedulerInfo {
                cpu,
                sched_entity: if info.policy == SchedPolicy::CFS {
                    FairSchedEntity {
                        cfs_rq: cpu,
                        cfs_group: None,
                        last_update_time: 0,
                        ..info.sched_entity
                    }
                } else {
                    info.sched_entity
                },
                ..info
            },
            ..*self
        }
    }

    /// The task as it belongs to another processor. A task of the fair class moves
    /// to the fair run queue there, and its averages start afresh.
    #[verifier::when_used_as_spec(spec_placed_on)]
    pub fn placed_on(&self, cpu: ProcessorId) -> (pcb: ProcessControlBlock)
        ensures
            pcb == self.placed_on(cpu),
    {
        let mut pcb = *self;
        pcb.sched_info.cpu = cpu;
        if pcb.sched_info.policy == SchedPolicy::CFS {
            pcb.sched_info.sched_entity.cfs_rq = cpu;
            pcb.sched_info.sched_entity.cfs_group = None;
            pcb.sched_info.sched_entity.last_update_time = 0;
        }
        pcb
    }
}

/// Moves a task that is on no run queue to a processor.
pub fn __set_task_cpu(sched: &SchedCore, pm: &mut ProcessManager, t: TaskId, cpu: ProcessorId)
    requires
        old(pm)@.has(t),
        sched@.accepts_tasks(cpu),
        cpu.id < MAX_CPU_NUM,
        old(pm)@.task(t).sched_info.on_rq != OnRq::Queued,
    ensures
        final(pm)@ == old(pm)@.with_task(t, old(pm)@.task(t).placed_on(cpu)),
{
    let pcb = pm.task(t).placed_on(cpu);
    pm.set_task(t, pcb);
}

/// Interrupts a processor so that it looks at its run queue.
pub fn send_resched_ipi(pm: &mut ProcessManager, cpu: ProcessorId)
    ensures
        final(pm)@ == old(pm)@.with_action(Action::ReschedIpi(cpu)),
{
    pm.act(Action::ReschedIpi(cpu));
}

/// The number of tasks that sleep for input or output on all processors.
pub fn nr_iowait(sched: &SchedCore) -> (total: u64)
    requires
        sched@.wf(),
        sched@.nr_iowait_below(MAX_CPU_NUM as int) <= u64::MAX,
    ensures
        total == sched@.nr_iowait_below(MAX_CPU_NUM as int),
{
    let mut total: u64 = 0;
    let mut i: u32 = 0;
    while i < MAX_CPU_NUM
        invariant
            i <= MAX_CPU_NUM,
            sched@.wf(),
            total == sched@.nr_iowait_below(i as int),
            sched@.nr_iowait_below(MAX_CPU_NUM as int) <= u64::MAX,
        decreases MAX_CPU_NUM - i,
    {
        proof {
            sched@.lemma_nr_iowait_grows(i + 1, MAX_CPU_NUM as int);
        }
        if sched.smp.present.contains(ProcessorId::new(i)) {
            let rq = cpu_rq(sched, i as usize);
            total = total + rq.nr_iowait() as u64;
        }
        i = i + 1;
    }
    total
}

/// Sets up the scheduler: every processor slot gets an empty run queue and an
/// empty wake queue; `now` is the time in ticks.
pub fn sched_init(
    pm: &mut ProcessManager,
    now: u64,
    smp: SmpCpuManager,
    system_state: SystemState,
) -> (sched: SchedCore)
    requires
        now + 5 * HZ + 1 <= u64::MAX,
    ensures
        sched@.wf(),
        forall|i: int|
            0 <= i < MAX_CPU_NUM ==> (#[trigger] sched@.rqs[i]).is_fresh(
                ProcessorId::new(i as u32),
                now,
            ),
        forall|i: int|
            0 <= i < MAX_CPU_NUM ==> #[trigger] sched@.wakequeues[i] == Seq::<TaskId>::empty(),
        forall|i: int| 0 <= i < MAX_CPU_NUM ==> (#[trigger] sched@.irq_times[i]).total == 0,
        sched@.idle_cpus.spec_is_empty(),
        sched@.domains.len() == 0,
        sched@.task_groups.len() == 0,
        sched@.smp == smp,
        sched@.system_state == system_state,
        final(pm)@ == old(pm)@.with_action(Action::InitKernelCpuStat),
{
    let mut rqs: Vec<CpuRunQueue> = Vec::new();
    let mut wakequeues: Vec<WakeQueue> = Vec::new();
    let mut irq_times: Vec<IrqTime> = Vec::new();
    let mut cpu: u32 = 0;
    while cpu < MAX_CPU_NUM
        invariant
            cpu <= MAX_CPU_NUM,
            rqs@.len() == cpu,
            wakequeues@.len() == cpu,
            irq_times@.len() == cpu,
            now + 5 * HZ + 1 <= u64::MAX,
            forall|i: int|
                0 <= i < cpu ==> (#[trigger] rqs@[i]).is_fresh(ProcessorId::new(i as u32), now),
            forall|i: int| 0 <= i < cpu ==> (#[trigger] wakequeues@[i])@ == Seq::<TaskId>::empty(),
            forall|i: int| 0 <= i < cpu ==> (#[trigger] irq_times@[i]).total == 0,
        decreases MAX_CPU_NUM - cpu,
    {
        irq_times.push(IrqTime { total: 0 });
        rqs.push(CpuRunQueue::new(ProcessorId::new(cpu), now));
        wakequeues.push(WakeQueue::new());
        cpu = cpu + 1;
    }
    pm.act(Action::InitKernelCpuStat);
    proof {
        reveal(groups_wf);
    }
    SchedCore {
        rqs,
        wakequeues,
        irq_times,
        idle_cpus: CpuMask::new(),
        domains: Vec::new(),
        task_groups: Vec::new(),
        smp,
        system_state,
    }
}

/// A queue, a wake queue and the mark of an idle processor change for one processor only.
pub proof fn law_tables_change_for_one_processor(
    sched: SchedCoreView,
    cpu: ProcessorId,
    rq: CpuRunQueue,
    list: Seq<TaskId>,
    idle: bool,
)
    requires
        sched.wf(),
        cpu.id < MAX_CPU_NUM,
    ensures
        sched.with_rq(cpu, rq) == (SchedCoreView {
            rqs: sched.rqs.update(cpu.id as int, rq),
            ..sched
        }),
        sched.with_wakequeue(cpu, list) == (SchedCoreView {
            wakequeues: sched.wakequeues.update(cpu.id as int, list),
            ..sched
        }),
        sched.with_idle(cpu, idle).idle_cpus.bits@ == sched.idle_cpus.bits@.update(
            cpu.id as int,
            idle,
        ),
        sched.with_idle(cpu, idle).rqs == sched.rqs,
        sched.rq(cpu) == sched.rqs[cpu.id as int],
        sched.wakequeue(cpu) == sched.wakequeues[cpu.id as int],
{
}

} // verus!
