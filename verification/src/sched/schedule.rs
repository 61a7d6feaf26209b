//! Giving the processor to another task.
use crate::libs::spinlock::SpinLockGuard;
use crate::process::action::Action;
use crate::process::manager::{ProcessManager, ProcessManagerView};
use crate::process::pcb::{ProcessControlBlock, TaskId};
use crate::sched::entity::{FairSchedEntity, ProcessSchedulerInfo, ProcessState};
use crate::sched::flags::{ClockUpdataFlag, DequeueFlag, SchedMode};
use crate::sched::percpu::{SchedCore, SchedCoreView, __set_task_cpu, cpu_rq, task_is_idle};
use crate::sched::policy::{OnRq, SchedPolicy};
use crate::sched::rq::{CfsRunQueue, ClockSample, CpuRunQueue};
use crate::sched::scheduler::{RqState, SchedClasses};
use crate::smp::cpu::{ProcessorId, MAX_CPU_NUM};
use vstd::prelude::*;

verus! {

/// The flags with which a task that goes to sleep leaves its queue.
pub const DEQUEUE_TO_SLEEP: u8 = 0x09;

/// The flags with which a task that moves to another processor leaves its queue.
pub const DEQUEUE_TO_MOVE: u8 = 0x0c;

impl ProcessControlBlock {
    pub open spec fn spec_is_leaving(&self) -> bool {
        self.sched_info.mark_sleep || self.sched_info.state.is_exited()
            || self.sched_info.state.is_stopped()
    }

    /// Whether the task is not fit to run on: it falls asleep, has exited or is
    /// stopped.
    #[verifier::when_used_as_spec(spec_is_leaving)]
    pub fn is_leaving(&self) -> (b: bool)
        ensures
            b == self.is_leaving(),
    {
        self.sched_info.mark_sleep || self.sched_info.state.is_exited()
            || self.sched_info.state.is_stopped()
    }

    pub open spec fn spec_kept_by_signal(&self) -> bool {
        let info = self.sched_info;
        !info.state.is_exited() && self.signal_pending_state(
            info.state.is_blocked_interruptable(),
            info.state.is_stopped() || info.wake_kill,
        )
    }

    /// Whether a signal keeps the task from falling asleep: any signal does in an
    /// interruptible sleep, `SIGKILL` in a killable one or a stop.
    #[verifier::when_used_as_spec(spec_kept_by_signal)]
    pub fn kept_by_signal(&self) -> (b: bool)
        ensures
            b == self.kept_by_signal(),
    {
        let info = self.sched_info;
        !info.state.is_exited() && self.signal_pending_state(
            info.state.is_blocked_interruptable(),
            info.state.is_stopped() || info.wake_kill,
        )
    }

    pub open spec fn spec_with_load_mark(&self, v: bool) -> ProcessControlBlock {
        self.with_flags(self.flags.with_sched_contributes_to_load(v))
    }

    /// The task as it counts as load in its sleep, or not.
    #[verifier::when_used_as_spec(spec_with_load_mark)]
    pub fn with_load_mark(&self, v: bool) -> (pcb: ProcessControlBlock)
        ensures
            pcb == self.with_load_mark(v),
    {
        self.with_flags(self.flags.with_sched_contributes_to_load(v))
    }

    pub open spec fn spec_migration_target(&self) -> Option<ProcessorId> {
        if self.flags.need_migrate {
            self.sched_info.migrate_to
        } else {
            None
        }
    }

    /// The processor that the task has been asked to move to.
    #[verifier::when_used_as_spec(spec_migration_target)]
    pub fn migration_target(&self) -> (cpu: Option<ProcessorId>)
        ensures
            cpu == self.migration_target(),
    {
        if self.flags.need_migrate {
            self.sched_info.migrate_to
        } else {
            None
        }
    }

    pub open spec fn spec_with_migrate_to(
        &self,
        migrate_to: Option<ProcessorId>,
    ) -> ProcessControlBlock {
        ProcessControlBlock {
            sched_info: ProcessSchedulerInfo { migrate_to, ..self.sched_info },
            ..*self
        }
    }

    /// The task with another processor noted to move to.
    #[verifier::when_used_as_spec(spec_with_migrate_to)]
    pub fn with_migrate_to(&self, migrate_to: Option<ProcessorId>) -> (pcb: ProcessControlBlock)
        ensures
            pcb == self.with_migrate_to(migrate_to),
    {
        ProcessControlBlock {
            sched_info: ProcessSchedulerInfo { migrate_to, ..self.sched_info },
            ..*self
        }
    }

    pub open spec fn spec_with_move_taken(&self) -> ProcessControlBlock {
        let p = self.with_migrate_to(None);
        p.with_flags(p.flags.with_need_migrate(false))
    }

    /// The task after its wish to move was taken up.
    #[verifier::when_used_as_spec(spec_with_move_taken)]
    pub fn with_move_taken(&self) -> (pcb: ProcessControlBlock)
        ensures
            pcb == self.with_move_taken(),
    {
        let p = self.with_migrate_to(None);
        p.with_flags(p.flags.with_need_migrate(false))
    }

    pub open spec fn spec_counting_switch(&self, voluntary: bool) -> ProcessControlBlock {
        if voluntary {
            ProcessControlBlock { nvcsw: self.nvcsw.wrapping_add(1), ..*self }
        } else {
            ProcessControlBlock { nivcsw: self.nivcsw.wrapping_add(1), ..*self }
        }
    }

    /// The task with one more switch away from it, of its own will or not.
    #[verifier::when_used_as_spec(spec_counting_switch)]
    pub fn counting_switch(&self, voluntary: bool) -> (pcb: ProcessControlBlock)
        ensures
            pcb == self.counting_switch(voluntary),
    {
        if voluntary {
            ProcessControlBlock { nvcsw: self.nvcsw.wrapping_add(1), ..*self }
        } else {
            ProcessControlBlock { nivcsw: self.nivcsw.wrapping_add(1), ..*self }
        }
    }
}

impl RqState {
    /// `t` leaves the queue to sleep, if it is on it.
    pub open spec fn leave<K: SchedClasses>(self, t: TaskId, after: RqState) -> bool {
        if self.pm.task(t).sched_info.on_rq == OnRq::Queued {
            self.deactivate::<K>(
                t,
                DequeueFlag { bits: DEQUEUE_TO_SLEEP },
                ClockSample::unread(),
                after,
            )
        } else {
            after == self
        }
    }

    /// `t`, which falls asleep, counts as load if nothing but its event can wake it.
    pub open spec fn counted_as_load(self, t: TaskId) -> RqState {
        let p = self.pm.task(t);
        let load = p.sched_info.state == ProcessState::Blocked(false);
        RqState {
            rq: if load {
                CpuRunQueue {
                    nr_uninterruptible: self.rq.nr_uninterruptible.wrapping_add(1),
                    ..self.rq
                }
            } else {
                self.rq
            },
            pm: self.pm.with_task(t, p.with_load_mark(load)),
        }
    }

    /// `t`, which fell asleep, is counted if it waits for input or output.
    pub open spec fn counted_as_iowait(self, t: TaskId) -> RqState {
        if self.pm.task(t).flags.in_iowait {
            RqState {
                rq: CpuRunQueue { nr_iowait: self.rq.nr_iowait.wrapping_add(1), ..self.rq },
                pm: self.pm,
            }
        } else {
            self
        }
    }

    pub open spec fn sleep_path<K: SchedClasses>(
        self,
        t: TaskId,
        mid: RqState,
        after: RqState,
    ) -> bool {
        self.counted_as_load(t).leave::<K>(t, mid) && after == mid.counted_as_iowait(t)
    }

    /// The running task `t`, which gives up the processor, leaves the queue if it is
    /// not fit to run on: one that a signal keeps awake goes on instead, and one that
    /// has exited counts no longer.
    pub open spec fn block<K: SchedClasses>(self, t: TaskId, after: RqState) -> bool {
        let p = self.pm.task(t);
        if !p.is_leaving() {
            after == self
        } else if p.kept_by_signal() {
            after == self.with_task(t, p.with_load_mark(false).runnable())
        } else if p.sched_info.state.is_exited() {
            self.with_task(t, p.with_load_mark(false)).leave::<K>(t, after)
        } else {
            exists|mid: RqState| self.sleep_path::<K>(t, mid, after)
        }
    }
}

/// The queue as it is when the scheduler has been entered: locked, with its clock up
/// to date unless that was to be skipped.
pub open spec fn entered(rq: CpuRunQueue, sample: ClockSample) -> CpuRunQueue {
    let promoted = CpuRunQueue {
        clock_updata_flags: rq.clock_updata_flags.promoted(),
        ..rq.with_lock(true)
    };
    CpuRunQueue {
        clock_updata_flags: ClockUpdataFlag { bits: ClockUpdataFlag::RQCF_UPDATE },
        ..promoted.clocked(sample)
    }
}

impl CpuRunQueue {
    /// Takes `t` off this queue to sleep, if it is on it.
    fn leave_queue<K: SchedClasses>(&mut self, pm: &mut ProcessManager, t: TaskId)
        requires
            RqState::of(*old(self), old(pm)@).wf(),
            old(pm)@.has(t),
            old(pm)@.task(t).sched_info.policy != SchedPolicy::RT,
        ensures
            RqState::of(*old(self), old(pm)@).leave::<K>(t, RqState::of(*final(self), final(pm)@)),
            RqState::of(*old(self), old(pm)@).keeps(RqState::of(*final(self), final(pm)@)),
    {
        if pm.task(t).sched_info.on_rq == OnRq::Queued {
            proof {
                crate::sched::flags::lemma_flag_words();
            }
            self.deactivate_task::<K>(
                pm,
                t,
                DequeueFlag { bits: DEQUEUE_TO_SLEEP },
                ClockSample::unread(),
            );
        } else {
            proof {
                RqState::of(*self, pm@).lemma_keeps_self();
            }
        }
    }

    /// Puts `t`, which is not kept awake, to sleep.
    fn fall_asleep<K: SchedClasses>(&mut self, pm: &mut ProcessManager, t: TaskId)
        requires
            RqState::of(*old(self), old(pm)@).wf(),
            old(pm)@.has(t),
            old(pm)@.task(t).sched_info.policy != SchedPolicy::RT,
        ensures
            exists|mid: RqState|
                RqState::of(*old(self), old(pm)@).sleep_path::<K>(
                    t,
                    mid,
                    RqState::of(*final(self), final(pm)@),
                ),
            final(pm)@.task(t).sched_info.cpu == old(pm)@.task(t).sched_info.cpu,
            RqState::of(*old(self), old(pm)@).stays(RqState::of(*final(self), final(pm)@)),
    {
        let ghost before = RqState::of(*self, pm@);
        let p = pm.task(t);
        let load = p.sched_info.state == ProcessState::Blocked(false);
        if load {
            self.nr_uninterruptible = self.nr_uninterruptible.wrapping_add(1);
        }
        let q = p.with_load_mark(load);
        pm.set_task(t, q);
        let ghost s1 = RqState::of(*self, pm@);
        proof {
            before.lemma_stays_step(t, q, *self);
            before.lemma_stayed(s1);
        }
        self.leave_queue::<K>(pm, t);
        let ghost s2 = RqState::of(*self, pm@);
        proof {
            s1.lemma_kept(s2);
            assert(s1.pm.task(t).kept_facts(s2.pm.task(t)));
            s1.lemma_stays(s2);
            before.lemma_stays_on(s1, s2);
        }
        if pm.task(t).flags.in_iowait {
            self.nr_iowait = self.nr_iowait.wrapping_add(1);
        }
        proof {
            let s3 = RqState::of(*self, pm@);
            s2.lemma_stays_step(t, pm@.task(t), *self);
            before.lemma_stays_on(s2, s3);
            assert(before.sleep_path::<K>(t, s2, s3));
        }
    }

    /// Takes the running task `t`, which gives up the processor, off this queue if it
    /// is not fit to run on. Returns whether it was not.
    fn block_current<K: SchedClasses>(
        &mut self,
        pm: &mut ProcessManager,
        t: TaskId,
    ) -> (voluntary: bool)
        requires
            RqState::of(*old(self), old(pm)@).wf(),
            old(pm)@.has(t),
            old(pm)@.task(t).sched_info.policy != SchedPolicy::RT,
        ensures
            voluntary == old(pm)@.task(t).is_leaving(),
            final(pm)@.task(t).sched_info.cpu == old(pm)@.task(t).sched_info.cpu,
            RqState::of(*old(self), old(pm)@).block::<K>(t, RqState::of(*final(self), final(pm)@)),
            RqState::of(*old(self), old(pm)@).stays(RqState::of(*final(self), final(pm)@)),
    {
        let ghost before = RqState::of(*self, pm@);
        let p = pm.task(t);
        if !p.is_leaving() {
            proof {
                before.lemma_keeps_self();
                before.lemma_stays(before);
            }
            return false;
        }
        if p.kept_by_signal() {
            let q = p.with_load_mark(false).runnable();
            pm.set_task(t, q);
            proof {
                before.lemma_stays_step(t, q, *self);
            }
        } else if p.sched_info.state.is_exited() {
            let q = p.with_load_mark(false);
            pm.set_task(t, q);
            let ghost s1 = RqState::of(*self, pm@);
            proof {
                before.lemma_stays_step(t, q, *self);
                before.lemma_stayed(s1);
            }
            self.leave_queue::<K>(pm, t);
            proof {
                let s2 = RqState::of(*self, pm@);
                s1.lemma_kept(s2);
                assert(s1.pm.task(t).kept_facts(s2.pm.task(t)));
                s1.lemma_stays(s2);
                before.lemma_stays_on(s1, s2);
            }
        } else {
            self.fall_asleep::<K>(pm, t);
        }
        true
    }
}

/// The state in the middle of a pass of the scheduler: the run queue that is being
/// worked on, and everything else.
pub struct PassState {
    pub rq: CpuRunQueue,
    pub sched: SchedCoreView,
    pub pm: ProcessManagerView,
}

impl PassState {
    #[verifier::inline]
    pub open spec fn of(
        rq: CpuRunQueue,
        sched: SchedCoreView,
        pm: ProcessManagerView,
    ) -> PassState {
        PassState { rq, sched, pm }
    }

    /// The run queue and the tasks.
    pub open spec fn here(self) -> RqState {
        RqState { rq: self.rq, pm: self.pm }
    }

    /// The fair class of a processor has no task running.
    pub open spec fn fair_current_forgotten(self, cpu: ProcessorId) -> PassState {
        if cpu == self.rq.cpu {
            PassState { rq: self.rq.without_fair_current(), ..self }
        } else {
            PassState {
                sched: self.sched.with_rq(cpu, self.sched.rq(cpu).without_fair_current()),
                ..self
            }
        }
    }

    /// The fair run queue that a task or a group belongs to has no task running.
    pub open spec fn queue_forgotten(self, e: FairSchedEntity) -> PassState {
        match e.cfs_group {
            None => self.fair_current_forgotten(e.cfs_rq),
            Some(g) => PassState {
                sched: SchedCoreView {
                    task_groups: crate::sched::percpu::group_forgotten(
                        self.sched.task_groups,
                        g as int,
                        e.cfs_rq,
                    ),
                    ..self.sched
                },
                ..self
            },
        }
    }

    /// The fair run queues that a task belongs to have no task running: its own, that of
    /// its group, and so on up to the highest level.
    pub open spec fn levels_forgotten(self, e: FairSchedEntity) -> PassState
        decreases e.level(),
        when crate::sched::percpu::groups_wf(self.sched.task_groups) && e.fits(
            self.sched.task_groups.len(),
        )
    {
        match e.parent {
            None => self.queue_forgotten(e),
            Some(p) => {
                proof {
                    crate::sched::percpu::lemma_group_entity(self.sched.task_groups, p);
                }
                self.queue_forgotten(e).levels_forgotten(
                    self.sched.task_groups[p.group as int].entitys[p.cpu.id as int],
                )
            },
        }
    }

    /// The task `t`, which has left its queue, belongs to `dest` and is handed over
    /// there once the switch away from it is done.
    pub open spec fn moved(self, t: TaskId, dest: ProcessorId) -> PassState {
        let p = self.pm.task(t);
        let s = if p.sched_info.policy == SchedPolicy::CFS {
            self.levels_forgotten(p.sched_info.sched_entity)
        } else {
            self
        };
        PassState {
            pm: s.pm.with_task(
                t,
                p.with_on_rq(OnRq::Unqueued).placed_on(dest).with_on_cpu(None),
            ).with_action(Action::MigrateAfterSwitch(dest)),
            ..s
        }
    }

    pub open spec fn migrate_path<K: SchedClasses>(
        self,
        t: TaskId,
        dest: ProcessorId,
        mid: RqState,
        after: PassState,
    ) -> bool {
        &&& self.here().with_task(t, self.pm.task(t).with_move_taken()).deactivate::<K>(
            t,
            DequeueFlag { bits: DEQUEUE_TO_MOVE },
            ClockSample::unread(),
            mid,
        )
        &&& after == PassState::of(mid.rq, self.sched, mid.pm).moved(t, dest)
    }

    /// The running task `t` moves to another processor if it was asked to.
    pub open spec fn migrate<K: SchedClasses>(self, t: TaskId, after: PassState) -> bool {
        match self.pm.task(t).migration_target() {
            Some(dest) => exists|mid: RqState| self.migrate_path::<K>(t, dest, mid, after),
            None => after == self,
        }
    }

    /// Whether the idle task runs here from now on.
    pub open spec fn idle_noted(self, prev: TaskId, next: TaskId) -> SchedCoreView {
        if self.pm.task(next).sched_info.policy == SchedPolicy::IDLE {
            self.sched.with_idle(self.rq.cpu, true)
        } else if self.pm.task(prev).sched_info.policy == SchedPolicy::IDLE {
            self.sched.with_idle(self.rq.cpu, false)
        } else {
            self.sched
        }
    }

    /// `next` gets the processor from `prev`. The lock stays held and interrupts stay
    /// off until the switch is done.
    pub open spec fn switched(self, prev: TaskId, next: TaskId, voluntary: bool) -> PassState {
        let p = self.pm.task(prev);
        let pm = self.pm.with_task(
            prev,
            p.with_flags(p.flags.with_need_schedule(false)).counting_switch(voluntary),
        ).with_action(Action::RseqPreempt(prev));
        PassState {
            rq: self.rq.with_current(next),
            sched: self.idle_noted(prev, next),
            pm: pm.with_task(next, pm.task(next).coming_on(self.rq.cpu)).with_action(
                Action::AccountContextSwitch,
            ).with_action(Action::SwitchProcess { prev, next }),
        }
    }

    /// `prev` goes on. The lock is given back, and interrupts are on if they were.
    pub open spec fn resumed(self, prev: TaskId, irq_was_enabled: bool) -> PassState {
        let p = self.pm.task(prev);
        let pm = self.pm.with_task(
            prev,
            p.with_flags(p.flags.with_need_schedule(false)),
        ).preempt_enabled();
        PassState {
            rq: self.rq.with_lock(false),
            sched: self.idle_noted(prev, prev),
            pm: if irq_was_enabled {
                ProcessManagerView { irq_enabled: true, ..pm }
            } else {
                pm
            },
        }
    }
}

impl ProcessControlBlock {
    pub open spec fn spec_coming_on(&self, cpu: ProcessorId) -> ProcessControlBlock {
        let p = if self.rseq_registered {
            self.with_flags(self.flags.with_need_rseq(true))
        } else {
            *self
        };
        p.with_on_cpu(Some(cpu))
    }

    /// The task as it comes on a processor: a restartable sequence has to be looked
    /// at.
    #[verifier::when_used_as_spec(spec_coming_on)]
    pub fn coming_on(&self, cpu: ProcessorId) -> (pcb: ProcessControlBlock)
        ensures
            pcb == self.coming_on(cpu),
    {
        let p = if self.rseq_registered {
            self.with_flags(self.flags.with_need_rseq(true))
        } else {
            *self
        };
        p.with_on_cpu(Some(cpu))
    }
}

/// Takes up the wish of the running task to move to another processor, if it has one.
pub fn take_current_migration_target(
    pm: &mut ProcessManager,
    current: TaskId,
) -> (dest: Option<ProcessorId>)
    requires
        old(pm)@.has(current),
    ensures
        dest == old(pm)@.task(current).migration_target(),
        final(pm)@ == if dest is Some {
            old(pm)@.with_task(current, old(pm)@.task(current).with_move_taken())
        } else {
            old(pm)@
        },
{
    let p = pm.task(current);
    let dest = p.migration_target();
    if dest.is_some() {
        pm.set_task(current, p.with_move_taken());
    }
    dest
}

impl CpuRunQueue {
    pub open spec fn spec_without_fair_current(&self) -> CpuRunQueue {
        CpuRunQueue { cfs: CfsRunQueue { current: None, ..self.cfs }, ..*self }
    }

    /// The queue with no task running in the fair class.
    #[verifier::when_used_as_spec(spec_without_fair_current)]
    pub fn without_fair_current(&self) -> (rq: CpuRunQueue)
        ensures
            rq == self.without_fair_current(),
    {
        CpuRunQueue { cfs: CfsRunQueue { current: None, ..self.cfs }, ..*self }
    }

    /// Notes that no task runs in the fair run queue that a task or a group belongs to.
    fn forget_queue(&mut self, sched: &mut SchedCore, pm: &ProcessManager, e: FairSchedEntity)
        requires
            old(sched)@.wf(),
            e.fits(old(sched)@.task_groups.len()),
        ensures
            PassState::of(*final(self), final(sched)@, pm@) == PassState::of(
                *old(self),
                old(sched)@,
                pm@,
            ).queue_forgotten(e),
            *final(self) == *old(self) || *final(self) == old(self).without_fair_current(),
            final(sched)@.wf(),
            final(sched)@.task_groups.len() == old(sched)@.task_groups.len(),
            forall|g: int|
                0 <= g < old(sched)@.task_groups.len() ==> (
                #[trigger] final(sched)@.task_groups[g]).entitys
                    == old(sched)@.task_groups[g].entitys,
            final(sched)@.smp == old(sched)@.smp,
            final(sched)@.system_state == old(sched)@.system_state,
            final(sched)@.domains == old(sched)@.domains,
    {
        match e.cfs_group {
            Some(g) => {
                proof {
                    crate::sched::percpu::lemma_group_forgotten(
                        sched@.task_groups,
                        g as int,
                        e.cfs_rq,
                    );
                }
                sched.forget_group_current(g, e.cfs_rq);
            },
            None => {
                let cfs_cpu = e.cfs_rq;
                if cfs_cpu == self.cpu {
                    *self = self.without_fair_current();
                } else {
                    let other = cpu_rq(sched, cfs_cpu.data() as usize).without_fair_current();
                    proof {
                        sched@.lemma_with_rq(cfs_cpu, other);
                    }
                    sched.set_rq(cfs_cpu, other);
                }
            },
        }
    }

    /// Notes that no task runs in the fair run queues that a task belongs to, up to the
    /// highest level.
    fn forget_levels(&mut self, sched: &mut SchedCore, pm: &ProcessManager, e: FairSchedEntity)
        requires
            old(sched)@.wf(),
            e.fits(old(sched)@.task_groups.len()),
        ensures
            PassState::of(*final(self), final(sched)@, pm@) == PassState::of(
                *old(self),
                old(sched)@,
                pm@,
            ).levels_forgotten(e),
            *final(self) == *old(self) || *final(self) == old(self).without_fair_current(),
            final(sched)@.wf(),
            final(sched)@.smp == old(sched)@.smp,
            final(sched)@.system_state == old(sched)@.system_state,
            final(sched)@.domains == old(sched)@.domains,
        decreases e.level(),
    {
        self.forget_queue(sched, pm, e);
        if let Some(p) = e.parent {
            proof {
                crate::sched::percpu::lemma_group_entity(sched@.task_groups, p);
            }
            let up = sched.group_entity(p);
            self.forget_levels(sched, pm, up);
        }
    }

    /// Moves `t`, which has left this queue, to `dest`.
    fn move_away(
        &mut self,
        sched: &mut SchedCore,
        pm: &mut ProcessManager,
        t: TaskId,
        dest: ProcessorId,
    )
        requires
            RqState::of(*old(self), old(pm)@).wf(),
            old(sched)@.wf(),
            old(pm)@.has(t),
            old(pm)@.task(t).sched_info.policy == SchedPolicy::CFS ==> old(pm)@.task(
                t,
            ).sched_info.sched_entity.fits(old(sched)@.task_groups.len()),
            old(sched)@.accepts_tasks(dest),
            dest.id < MAX_CPU_NUM,
        ensures
            PassState::of(*final(self), final(sched)@, final(pm)@) == PassState::of(
                *old(self),
                old(sched)@,
                old(pm)@,
            ).moved(t, dest),
            RqState::of(*old(self), old(pm)@).stays(RqState::of(*final(self), final(pm)@)),
            final(sched)@.domains == old(sched)@.domains,
            final(sched)@.wf(),
    {
        let ghost before = RqState::of(*self, pm@);
        let p = pm.task(t);
        if p.sched_info.policy == SchedPolicy::CFS {
            self.forget_levels(sched, pm, p.sched_info.sched_entity);
        }
        let off = p.with_on_rq(OnRq::Unqueued);
        pm.set_task(t, off);
        __set_task_cpu(sched, pm, t, dest);
        let q = pm.task(t).with_on_cpu(None);
        pm.set_task(t, q);
        let ghost mid = RqState::of(*self, pm@);
        proof {
            before.pm.lemma_with_task_twice(t, off, off.placed_on(dest));
            before.pm.lemma_with_task_twice(t, off.placed_on(dest), q);
            before.lemma_stays_step(t, q, *self);
            before.lemma_stayed(mid);
        }
        pm.act(Action::MigrateAfterSwitch(dest));
        proof {
            let after = RqState::of(*self, pm@);
            mid.lemma_spares_action(Action::MigrateAfterSwitch(dest));
            mid.lemma_spares_keeps(after);
            mid.lemma_stays(after);
            before.lemma_stays_on(mid, after);
        }
    }

    /// Moves the running task `t` to another processor if it was asked to. Returns
    /// whether it did.
    fn migrate_current<K: SchedClasses>(
        &mut self,
        sched: &mut SchedCore,
        pm: &mut ProcessManager,
        t: TaskId,
    ) -> (migrated: bool)
        requires
            RqState::of(*old(self), old(pm)@).wf(),
            old(sched)@.wf(),
            old(pm)@.has(t),
            old(pm)@.task(t).sched_info.policy != SchedPolicy::RT,
            can_migrate(old(sched)@, old(pm)@.task(t)),
        ensures
            migrated == (old(pm)@.task(t).migration_target() is Some),
            PassState::of(*old(self), old(sched)@, old(pm)@).migrate::<K>(
                t,
                PassState::of(*final(self), final(sched)@, final(pm)@),
            ),
            RqState::of(*old(self), old(pm)@).stays(RqState::of(*final(self), final(pm)@)),
            final(sched)@.domains == old(sched)@.domains,
            final(sched)@.wf(),
    {
        let ghost start = PassState::of(*self, sched@, pm@);
        let ghost before = start.here();
        let ghost p = pm@.task(t);
        match take_current_migration_target(pm, t) {
            Some(dest) => {
                let ghost s1 = RqState::of(*self, pm@);
                proof {
                    before.lemma_stays_step(t, p.with_move_taken(), *self);
                    before.lemma_stayed(s1);
                    crate::sched::flags::lemma_flag_words();
                }
                self.deactivate_task::<K>(
                    pm,
                    t,
                    DequeueFlag { bits: DEQUEUE_TO_MOVE },
                    ClockSample::unread(),
                );
                let ghost s2 = RqState::of(*self, pm@);
                proof {
                    s1.lemma_kept(s2);
                    s1.lemma_stays(s2);
                    before.lemma_stays_on(s1, s2);
                    assert(s1.pm.task(t).kept_facts(s2.pm.task(t)));
                }
                self.move_away(sched, pm, t, dest);
                proof {
                    let after = PassState::of(*self, sched@, pm@);
                    before.lemma_stays_on(s2, after.here());
                    assert(start.migrate_path::<K>(t, dest, s2, after));
                }
                true
            },
            None => {
                proof {
                    before.lemma_keeps_self();
                    before.lemma_stays(before);
                }
                false
            },
        }
    }
}

/// Whether a task may move to where it was asked to: it is not the idle one, the
/// processor runs tasks, the task is allowed there, and the fair run queues that it belongs
/// to are there.
pub open spec fn can_migrate(sched: SchedCoreView, p: ProcessControlBlock) -> bool {
    match p.migration_target() {
        Some(dest) => {
            &&& p.sched_info.policy != SchedPolicy::IDLE
            &&& sched.smp.is_online_cpu(dest)
            &&& p.sched_info.cpus_allowed.has(dest.id as int)
            &&& p.sched_info.policy == SchedPolicy::CFS ==> p.sched_info.sched_entity.fits(
                sched.task_groups.len(),
            )
        },
        None => true,
    }
}

impl PassState {
    /// Whether `prev` gives up the processor of its own will: it neither moves away
    /// nor is preempted, and is not the idle task.
    pub open spec fn gives_up(self, prev: TaskId, sched_mod: SchedMode) -> bool {
        &&& self.pm.task(prev).migration_target() is None
        &&& !sched_mod.contains(SchedMode::SM_MASK_PREEMPT)
        &&& self.pm.task(prev).sched_info.policy != SchedPolicy::IDLE
    }

    pub open spec fn decide_path<K: SchedClasses>(
        self,
        prev: TaskId,
        sched_mod: SchedMode,
        moved: PassState,
        blocked: RqState,
        next: TaskId,
        picked: RqState,
    ) -> bool {
        &&& self.migrate::<K>(prev, moved)
        &&& if self.gives_up(prev, sched_mod) {
            moved.here().block::<K>(prev, blocked)
        } else {
            blocked == moved.here()
        }
        &&& blocked.pick_next::<K>(prev, next, picked)
    }

    /// `prev` moves away if it was asked to; else, if it gives up the processor, it
    /// leaves the queue unless it is fit to run on; then `next` is picked.
    pub open spec fn decide<K: SchedClasses>(
        self,
        prev: TaskId,
        sched_mod: SchedMode,
        next: TaskId,
        end: PassState,
    ) -> bool {
        exists|moved: PassState, blocked: RqState, picked: RqState|
            self.decide_path::<K>(prev, sched_mod, moved, blocked, next, picked) && end
                == PassState::of(picked.rq, moved.sched, picked.pm)
    }

    /// `next` gets the processor unless it has it already.
    pub open spec fn committed(
        self,
        prev: TaskId,
        next: TaskId,
        voluntary: bool,
        irq_was_enabled: bool,
    ) -> PassState {
        if prev != next {
            self.switched(prev, next, voluntary)
        } else {
            self.resumed(prev, irq_was_enabled)
        }
    }

    /// The state in which the scheduler decides.
    pub open spec fn entry(
        sched: SchedCoreView,
        pm: ProcessManagerView,
        sample: ClockSample,
    ) -> PassState {
        PassState {
            rq: entered(sched.rq(pm.cpu), sample),
            sched,
            pm: pm.irq_off().preempt_disabled(),
        }
    }
}

pub open spec fn schedule_path<K: SchedClasses>(
    sched: SchedCoreView,
    pm: ProcessManagerView,
    sched_mod: SchedMode,
    sample: ClockSample,
    next: TaskId,
    end: PassState,
    after: PassState,
) -> bool {
    let prev = sched.rq(pm.cpu).current->Some_0;
    let start = PassState::entry(sched, pm, sample);
    &&& pm.has(next)
    &&& start.decide::<K>(prev, sched_mod, next, end)
    &&& after == end.committed(
        prev,
        next,
        start.gives_up(prev, sched_mod) && pm.task(prev).is_leaving(),
        pm.irq_enabled,
    )
}

/// What a pass of the scheduler does: the next task, which is one that there is, is decided on,
/// and gets the processor unless it has it already.
pub open spec fn schedule_rel<K: SchedClasses>(
    sched: SchedCoreView,
    pm: ProcessManagerView,
    sched_mod: SchedMode,
    sample: ClockSample,
    next: TaskId,
    after: PassState,
) -> bool {
    exists|end: PassState|
        schedule_path::<K>(sched, pm, sched_mod, sample, next, end, after)
}

/// Whether the scheduler can be entered on the processor at work: its queue is free
/// and has a running task, which is not a real-time one and can move where it was
/// asked to, and an idle task.
pub open spec fn can_schedule(sched: SchedCoreView, pm: ProcessManagerView) -> bool {
    let rq = sched.rq(pm.cpu);
    let prev = rq.current->Some_0;
    &&& sched.wf()
    &&& pm.wf()
    &&& pm.cpu.id < MAX_CPU_NUM
    &&& RqState::of(rq, pm).has_curr()
    &&& !rq.lock.locked
    &&& pm.task(prev).sched_info.policy != SchedPolicy::RT
    &&& pm.task(prev).sched_info.on_cpu is Some ==> pm.task(prev).sched_info.on_cpu == Some(
        pm.cpu,
    )
    &&& pm.upgrade(rq.idle) is Some
    &&& can_migrate(sched, pm.task(prev))
}

impl CpuRunQueue {
    /// Enters the scheduler: takes the lock and brings the clock up to date.
    fn enter(&mut self, pm: &mut ProcessManager, sample: ClockSample) -> (guard: SpinLockGuard)
        requires
            RqState::of(*old(self), old(pm)@).wf(),
            old(self).cpu == old(pm)@.cpu,
            !old(self).lock.locked,
        ensures
            guard.irq_flag is None,
            *final(self) == entered(*old(self), sample),
            final(self).clock_wf(),
            final(pm)@ == old(pm)@.preempt_disabled(),
    {
        let guard = self.self_lock_no_irq(pm);
        self.clock_updata_flags = self.clock_updata_flags.promoted();
        self.update_rq_clock(pm.cpu, sample);
        self.clock_updata_flags = ClockUpdataFlag { bits: ClockUpdataFlag::RQCF_UPDATE };
        guard
    }

    /// Notes whether the idle task runs here from now on.
    fn note_idle(&self, sched: &mut SchedCore, pm: &ProcessManager, prev: TaskId, next: TaskId)
        requires
            pm@.has(prev),
            pm@.has(next),
        ensures
            final(sched)@ == PassState::of(*self, old(sched)@, pm@).idle_noted(prev, next),
    {
        if task_is_idle(&pm.task(next)) {
            sched.set_idle_cpu(self.cpu, true);
        } else if task_is_idle(&pm.task(prev)) {
            sched.set_idle_cpu(self.cpu, false);
        }
    }

    /// Gives the processor from `prev` to `next`.
    fn switch_to(
        &mut self,
        sched: &mut SchedCore,
        pm: &mut ProcessManager,
        prev: TaskId,
        next: TaskId,
        voluntary: bool,
    )
        requires
            old(pm)@.has(prev),
            old(pm)@.has(next),
            prev != next,
        ensures
            PassState::of(*final(self), final(sched)@, final(pm)@) == PassState::of(
                *old(self),
                old(sched)@,
                old(pm)@,
            ).switched(prev, next, voluntary),
    {
        self.note_idle(sched, pm, prev, next);
        let p = pm.task(prev);
        let p = p.with_flags(p.flags.with_need_schedule(false)).counting_switch(voluntary);
        pm.set_task(prev, p);
        pm.act(Action::RseqPreempt(prev));
        let n = pm.task(next).coming_on(self.cpu);
        pm.set_task(next, n);
        self.set_current(next);
        pm.act(Action::AccountContextSwitch);
        pm.act(Action::SwitchProcess { prev, next });
    }

    /// Lets `prev` go on.
    fn resume(
        &mut self,
        sched: &mut SchedCore,
        pm: &mut ProcessManager,
        prev: TaskId,
        guard: SpinLockGuard,
        irq_was_enabled: bool,
    )
        requires
            old(pm)@.wf(),
            old(pm)@.has(prev),
            guard.irq_flag is None,
        ensures
            PassState::of(*final(self), final(sched)@, final(pm)@) == PassState::of(
                *old(self),
                old(sched)@,
                old(pm)@,
            ).resumed(prev, irq_was_enabled),
    {
        self.note_idle(sched, pm, prev, prev);
        let p = pm.task(prev);
        let p = p.with_flags(p.flags.with_need_schedule(false));
        pm.set_task(prev, p);
        self.self_unlock(guard, pm);
        if irq_was_enabled {
            pm.irq_enabled = true;
        }
    }
}

impl CpuRunQueue {
    /// Decides which task runs after `prev`. Returns it, and whether `prev` wants to
    /// leave the processor.
    fn decide<K: SchedClasses>(
        &mut self,
        sched: &mut SchedCore,
        pm: &mut ProcessManager,
        prev: TaskId,
        sched_mod: SchedMode,
    ) -> (res: (TaskId, bool))
        requires
            RqState::of(*old(self), old(pm)@).wf(),
            old(sched)@.wf(),
            old(pm)@.has(prev),
            old(pm)@.task(prev).sched_info.policy != SchedPolicy::RT,
            old(pm)@.task(prev).sched_info.on_cpu is Some ==> old(pm)@.task(
                prev,
            ).sched_info.on_cpu == Some(old(self).cpu),
            old(pm)@.upgrade(old(self).idle) is Some,
            can_migrate(old(sched)@, old(pm)@.task(prev)),
        ensures
            PassState::of(*old(self), old(sched)@, old(pm)@).decide::<K>(
                prev,
                sched_mod,
                res.0,
                PassState::of(*final(self), final(sched)@, final(pm)@),
            ),
            res.1 == (PassState::of(*old(self), old(sched)@, old(pm)@).gives_up(prev, sched_mod)
                && old(pm)@.task(prev).is_leaving()),
            RqState::of(*old(self), old(pm)@).stays(RqState::of(*final(self), final(pm)@)),
            final(pm)@.has(res.0),
            old(pm)@.task(prev).migration_target() is None ==> final(pm)@.task(
                prev,
            ).sched_info.cpu == old(pm)@.task(prev).sched_info.cpu,
            final(sched)@.domains == old(sched)@.domains,
            final(sched)@.wf(),
    {
        let ghost start = PassState::of(*self, sched@, pm@);
        let migrated = self.migrate_current::<K>(sched, pm, prev);
        let ghost moved = PassState::of(*self, sched@, pm@);
        proof {
            start.here().lemma_stayed(moved.here());
            assert(start.pm.task(prev).stays(moved.pm.task(prev)));
        }
        let mut voluntary_switch = false;
        if !migrated && !sched_mod.contains(SchedMode::SM_MASK_PREEMPT) && !task_is_idle(
            &pm.task(prev),
        ) {
            voluntary_switch = self.block_current::<K>(pm, prev);
        } else {
            proof {
                moved.here().lemma_keeps_self();
                moved.here().lemma_stays(moved.here());
            }
        }
        let ghost blocked = RqState::of(*self, pm@);
        proof {
            start.here().lemma_stays_on(moved.here(), blocked);
            start.here().lemma_stayed(blocked);
            let idle = start.pm.upgrade(start.rq.idle)->Some_0;
            assert(start.pm.task(idle).stays(blocked.pm.task(idle)));
            assert(start.pm.task(prev).stays(blocked.pm.task(prev)));
        }
        let next = self.pick_next_task::<K>(pm, prev);
        proof {
            let picked = RqState::of(*self, pm@);
            blocked.lemma_spares_keeps(picked);
            blocked.lemma_spared(picked, prev);
            blocked.lemma_stays(picked);
            start.here().lemma_stays_on(blocked, picked);
            assert(start.decide_path::<K>(prev, sched_mod, moved, blocked, next, picked));
        }
        (next, voluntary_switch)
    }
}

/// Gives the processor to `next` unless it has it already, and puts the queue back.
fn commit(
    rq: CpuRunQueue,
    sched: &mut SchedCore,
    pm: &mut ProcessManager,
    prev: TaskId,
    next: TaskId,
    voluntary: bool,
    guard: SpinLockGuard,
    irq_was_enabled: bool,
) -> (after: Ghost<PassState>)
    requires
        RqState::of(rq, old(pm)@).wf(),
        rq.cpu.id < MAX_CPU_NUM,
        rq.lock.locked,
        rq.sched_domain is Some ==> rq.sched_domain->Some_0 < old(sched)@.domains.len(),
        old(sched)@.wf(),
        old(pm)@.has(prev),
        old(pm)@.has(next),
        !old(pm)@.irq_enabled,
        guard.irq_flag is None,
    ensures
        final(sched)@.rq(rq.cpu) == after@.rq,
        !final(pm)@.task(prev).flags.need_schedule,
        final(pm)@.task(prev).sched_info.cpu == old(pm)@.task(prev).sched_info.cpu,
        after@ == PassState::of(rq, old(sched)@, old(pm)@).committed(
            prev,
            next,
            voluntary,
            irq_was_enabled,
        ),
        final(pm)@ == after@.pm,
        final(sched)@ == after@.sched.with_rq(rq.cpu, after@.rq),
        final(sched)@.rq(rq.cpu).lock.locked == (prev != next),
        final(sched)@.wf(),
        final(pm)@.wf(),
        final(pm)@.cpu == old(pm)@.cpu,
        final(pm)@.current == old(pm)@.current,
        final(pm)@.init_done == old(pm)@.init_done,
        final(pm)@.tasks.len() == old(pm)@.tasks.len(),
        prev != next ==> !final(pm)@.irq_enabled && final(pm)@.preempt_count
            == old(pm)@.preempt_count,
        prev == next ==> final(pm)@.irq_enabled == irq_was_enabled && final(pm)@.preempt_count
            == old(pm)@.preempt_enabled().preempt_count,
{
    let mut rq = rq;
    let cpu = rq.cpu;
    if prev != next {
        rq.switch_to(sched, pm, prev, next, voluntary);
    } else {
        rq.resume(sched, pm, prev, guard, irq_was_enabled);
    }
    let ghost after = PassState::of(rq, sched@, pm@);
    proof {
        sched@.lemma_with_rq(cpu, rq);
    }
    sched.set_rq(cpu, rq);
    Ghost(after)
}

/// Makes a pass of the scheduler on the processor at work. Preemption is disabled. If
/// another task gets the processor the result is true: the lock of the queue is held,
/// and finishing the switch frees it and enables preemption. If not, the caller has to
/// enable preemption again.
pub fn __schedule<K: SchedClasses>(
    sched: &mut SchedCore,
    pm: &mut ProcessManager,
    sched_mod: SchedMode,
    sample: ClockSample,
) -> (switched: bool)
    requires
        can_schedule(old(sched)@, old(pm)@),
    ensures
        exists|next: TaskId, rq: CpuRunQueue, mid: SchedCoreView|
            #![trigger schedule_rel::<K>(
                old(sched)@,
                old(pm)@,
                sched_mod,
                sample,
                next,
                PassState::of(rq, mid, final(pm)@),
            )]
            schedule_rel::<K>(
                old(sched)@,
                old(pm)@,
                sched_mod,
                sample,
                next,
                PassState::of(rq, mid, final(pm)@),
            ) && final(sched)@ == mid.with_rq(old(pm)@.cpu, rq) && switched == (Some(next)
                != old(sched)@.rq(old(pm)@.cpu).current),
        switched ==> final(sched)@.rq(old(pm)@.cpu).lock.locked && !final(pm)@.irq_enabled
            && final(pm)@.preempt_count == old(pm)@.preempt_disabled().preempt_count,
        !switched ==> !final(sched)@.rq(old(pm)@.cpu).lock.locked && final(pm)@.irq_enabled
            == old(pm)@.irq_enabled && final(pm)@.preempt_count
            == old(pm)@.preempt_disabled().preempt_enabled().preempt_count,
        !final(pm)@.task(old(sched)@.rq(old(pm)@.cpu).current->Some_0).flags.need_schedule,
        old(pm)@.task(old(sched)@.rq(old(pm)@.cpu).current->Some_0).migration_target() is None
            ==> final(pm)@.task(old(sched)@.rq(old(pm)@.cpu).current->Some_0).sched_info.cpu
            == old(pm)@.task(old(sched)@.rq(old(pm)@.cpu).current->Some_0).sched_info.cpu,
        !switched ==> final(sched)@.rq(old(pm)@.cpu).current == old(sched)@.rq(
            old(pm)@.cpu,
        ).current,
        final(sched)@.wf(),
        final(pm)@.wf(),
        final(pm)@.cpu == old(pm)@.cpu,
        final(pm)@.current == old(pm)@.current,
        final(pm)@.init_done == old(pm)@.init_done,
        final(pm)@.tasks.len() == old(pm)@.tasks.len(),
{
    let ghost sched0 = sched@;
    let ghost pm0 = pm@;
    let cpu = pm.cpu;
    let mut rq = cpu_rq(sched, cpu.data() as usize);
    let irq_was_enabled = pm.irq_enabled;
    pm.irq_enabled = false;
    let prev = rq.current();
    let guard = rq.enter(pm, sample);
    let ghost start = PassState::of(rq, sched@, pm@);
    let (next, voluntary_switch) = rq.decide::<K>(sched, pm, prev, sched_mod);
    let ghost end = PassState::of(rq, sched@, pm@);
    proof {
        start.here().lemma_stayed(end.here());
    }
    let Ghost(after) = commit(
        rq,
        sched,
        pm,
        prev,
        next,
        voluntary_switch,
        guard,
        irq_was_enabled,
    );
    proof {
        assert(schedule_path::<K>(sched0, pm0, sched_mod, sample, next, end, after));
        assert(schedule_rel::<K>(
            sched0,
            pm0,
            sched_mod,
            sample,
            next,
            PassState::of(after.rq, after.sched, pm@),
        ));
    }
    prev != next
}

/// Whether the running task should give up the processor.
pub fn need_resched(pm: &ProcessManager) -> (b: bool)
    requires
        pm@.wf(),
    ensures
        b == pm@.task(pm@.current).flags.need_schedule,
{
    pm.task(pm.current).flags.need_schedule
}

/// What entering the scheduler once does.
pub open spec fn schedule_once<K: SchedClasses>(
    sched: SchedCoreView,
    pm: ProcessManagerView,
    sched_mod: SchedMode,
    sample: ClockSample,
    switched: bool,
    next: TaskId,
    after: PassState,
    sched_after: SchedCoreView,
    pm_after: ProcessManagerView,
) -> bool {
    &&& schedule_rel::<K>(sched, pm.preempt_disabled(), sched_mod, sample, next, after)
    &&& sched_after == after.sched.with_rq(pm.cpu, after.rq)
    &&& switched == (Some(next) != sched.rq(pm.cpu).current)
    &&& pm_after == if switched {
        after.pm
    } else {
        after.pm.preempt_enabled()
    }
}

/// Gives the processor to the task that should have it. If the result is true, that
/// is another one: the switch has to be made, and when the task that called is back
/// `schedule_back` goes on. If the result is false
/// the task that called goes on, and need not give up the processor any more.
pub fn schedule<K: SchedClasses>(
    sched: &mut SchedCore,
    pm: &mut ProcessManager,
    sched_mod: SchedMode,
    sample: ClockSample,
) -> (switched: bool)
    requires
        can_schedule(old(sched)@, old(pm)@),
    ensures
        exists|next: TaskId, after: PassState|
            schedule_once::<K>(
                old(sched)@,
                old(pm)@,
                sched_mod,
                sample,
                switched,
                next,
                after,
                final(sched)@,
                final(pm)@,
            ),
        old(pm)@.task(old(sched)@.rq(old(pm)@.cpu).current->Some_0).migration_target() is None
            ==> final(pm)@.task(old(sched)@.rq(old(pm)@.cpu).current->Some_0).sched_info.cpu
            == old(pm)@.task(old(sched)@.rq(old(pm)@.cpu).current->Some_0).sched_info.cpu,
        !switched ==> final(sched)@.rq(old(pm)@.cpu).current == old(sched)@.rq(
            old(pm)@.cpu,
        ).current && !final(sched)@.rq(old(pm)@.cpu).lock.locked,
        !switched && old(sched)@.rq(old(pm)@.cpu).current == Some(old(pm)@.current)
            ==> !final(pm)@.task(final(pm)@.current).flags.need_schedule,
        !switched && old(pm)@.count() < usize::MAX - 1 ==> final(pm)@.preempt_count
            == old(pm)@.preempt_count,
        final(sched)@.wf(),
        final(pm)@.wf(),
        final(pm)@.cpu == old(pm)@.cpu,
        final(pm)@.current == old(pm)@.current,
        final(pm)@.tasks.len() == old(pm)@.tasks.len(),
{
    let ghost sched0 = sched@;
    let ghost pm0 = pm@;
    pm.preempt_disable();
    let ghost pm1 = pm@;
    let switched = __schedule::<K>(sched, pm, sched_mod, sample);
    let ghost pm2 = pm@;
    if !switched {
        pm.preempt_enable();
    }
    proof {
        let (next, rq, mid) = choose|next: TaskId, rq: CpuRunQueue, mid: SchedCoreView|
            #![trigger schedule_rel::<K>(
                sched0,
                pm1,
                sched_mod,
                sample,
                next,
                PassState::of(rq, mid, pm2),
            )]
            schedule_rel::<K>(sched0, pm1, sched_mod, sample, next, PassState::of(rq, mid, pm2))
                && sched@ == mid.with_rq(pm1.cpu, rq) && switched == (Some(next) != sched0.rq(
                pm1.cpu,
            ).current);
        assert(schedule_once::<K>(
            sched0,
            pm0,
            sched_mod,
            sample,
            switched,
            next,
            PassState::of(rq, mid, pm2),
            sched@,
            pm@,
        ));
        if !switched && pm0.count() < usize::MAX - 1 {
            crate::process::preempt::law_preempt_disable_enable_restores(pm1);
            crate::process::preempt::law_preempt_disable_enable_restores(pm0);
            assert(pm@.preempt_count =~= pm0.preempt_count);
        }
    }
    switched
}

/// Goes on when a task that gave up the processor has it back: if it should give up the
/// processor again, it does so at once. If the result is true another task gets the
/// processor, and the task calls again when it is back; if it is false, the task need not
/// give up the processor, and goes on.
pub fn schedule_back<K: SchedClasses>(
    sched: &mut SchedCore,
    pm: &mut ProcessManager,
    sched_mod: SchedMode,
    sample: ClockSample,
) -> (again: bool)
    requires
        old(pm)@.wf(),
        old(pm)@.task(old(pm)@.current).flags.need_schedule ==> can_schedule(
            old(sched)@,
            old(pm)@,
        ),
    ensures
        !old(pm)@.task(old(pm)@.current).flags.need_schedule ==> !again && final(sched)@
            == old(sched)@ && final(pm)@ == old(pm)@,
        old(pm)@.task(old(pm)@.current).flags.need_schedule ==> exists|
            next: TaskId,
            after: PassState,
        |
            schedule_once::<K>(
                old(sched)@,
                old(pm)@,
                sched_mod,
                sample,
                again,
                next,
                after,
                final(sched)@,
                final(pm)@,
            ),
        !again && old(sched)@.rq(old(pm)@.cpu).current == Some(old(pm)@.current)
            ==> !final(pm)@.task(final(pm)@.current).flags.need_schedule,
        !again && old(pm)@.count() < usize::MAX - 1 ==> final(pm)@.preempt_count
            == old(pm)@.preempt_count,
        old(sched)@.wf() ==> final(sched)@.wf(),
        final(pm)@.wf(),
        final(pm)@.cpu == old(pm)@.cpu,
        final(pm)@.current == old(pm)@.current,
        final(pm)@.tasks.len() == old(pm)@.tasks.len(),
{
    if need_resched(pm) {
        schedule::<K>(sched, pm, sched_mod, sample)
    } else {
        false
    }
}

impl ProcessManagerView {
    /// A task is marked as waiting for input or output, or not.
    pub open spec fn with_iowait(self, t: TaskId, v: bool) -> ProcessManagerView {
        self.with_task(t, self.task(t).with_flags(self.task(t).flags.with_in_iowait(v)))
    }
}

/// Marks the running task as waiting for input or output, and gives up the
/// processor. If the result is true, the task calls `io_schedule_back` when it is back;
/// if it is false the mark has been taken off again.
pub fn io_schedule<K: SchedClasses>(
    sched: &mut SchedCore,
    pm: &mut ProcessManager,
    sample: ClockSample,
) -> (switched: bool)
    requires
        can_schedule(old(sched)@, old(pm)@),
    ensures
        exists|next: TaskId, after: PassState, pm_after: ProcessManagerView|
            #[trigger] schedule_once::<K>(
                old(sched)@,
                old(pm)@.with_iowait(old(pm)@.current, true),
                SchedMode { bits: SchedMode::SM_NONE },
                sample,
                switched,
                next,
                after,
                final(sched)@,
                pm_after,
            ) && final(pm)@ == if switched {
                pm_after
            } else {
                pm_after.with_iowait(old(pm)@.current, false)
            },
        !switched ==> !final(pm)@.task(old(pm)@.current).flags.in_iowait,
        final(sched)@.wf(),
        final(pm)@.wf(),
{
    let current = pm.current;
    let flags = pm.task(current).flags.with_in_iowait(true);
    pm.set_flags(current, flags);
    let ghost pm1 = pm@;
    let switched = schedule::<K>(sched, pm, SchedMode { bits: SchedMode::SM_NONE }, sample);
    let ghost pm2 = pm@;
    if !switched {
        let flags = pm.task(current).flags.with_in_iowait(false);
        pm.set_flags(current, flags);
    }
    proof {
        assert(pm1 == old(pm)@.with_iowait(current, true));
        let (next, after) = choose|next: TaskId, after: PassState|
            schedule_once::<K>(
                old(sched)@,
                pm1,
                SchedMode { bits: SchedMode::SM_NONE },
                sample,
                switched,
                next,
                after,
                sched@,
                pm2,
            );
        assert(schedule_once::<K>(
            old(sched)@,
            old(pm)@.with_iowait(current, true),
            SchedMode { bits: SchedMode::SM_NONE },
            sample,
            switched,
            next,
            after,
            sched@,
            pm2,
        ));
    }
    switched
}

/// Goes on when a task that waited for input or output has the processor back: it gives
/// up the processor again if it should, and loses its mark once it goes on. If the
/// result is true the task calls again when it is back.
pub fn io_schedule_back<K: SchedClasses>(
    sched: &mut SchedCore,
    pm: &mut ProcessManager,
    sample: ClockSample,
) -> (again: bool)
    requires
        old(pm)@.wf(),
        old(pm)@.task(old(pm)@.current).flags.need_schedule ==> can_schedule(
            old(sched)@,
            old(pm)@,
        ),
    ensures
        !old(pm)@.task(old(pm)@.current).flags.need_schedule ==> !again && final(sched)@
            == old(sched)@ && final(pm)@ == old(pm)@.with_iowait(old(pm)@.current, false),
        old(pm)@.task(old(pm)@.current).flags.need_schedule ==> exists|
            next: TaskId,
            after: PassState,
            pm_after: ProcessManagerView,
        |
            #[trigger] schedule_once::<K>(
                old(sched)@,
                old(pm)@,
                SchedMode { bits: SchedMode::SM_NONE },
                sample,
                again,
                next,
                after,
                final(sched)@,
                pm_after,
            ) && final(pm)@ == if again {
                pm_after
            } else {
                pm_after.with_iowait(old(pm)@.current, false)
            },
        !again ==> !final(pm)@.task(old(pm)@.current).flags.in_iowait,
        !again && old(sched)@.rq(old(pm)@.cpu).current == Some(old(pm)@.current)
            ==> !final(pm)@.task(old(pm)@.current).flags.need_schedule,
        old(sched)@.wf() ==> final(sched)@.wf(),
        final(pm)@.wf(),
{
    let current = pm.current;
    let again = schedule_back::<K>(sched, pm, SchedMode { bits: SchedMode::SM_NONE }, sample);
    let ghost pm1 = pm@;
    if !again {
        let flags = pm.task(current).flags.with_in_iowait(false);
        pm.set_flags(current, flags);
    }
    proof {
        if old(pm)@.task(current).flags.need_schedule {
            let (next, after) = choose|next: TaskId, after: PassState|
                schedule_once::<K>(
                    old(sched)@,
                    old(pm)@,
                    SchedMode { bits: SchedMode::SM_NONE },
                    sample,
                    again,
                    next,
                    after,
                    sched@,
                    pm1,
                );
            assert(schedule_once::<K>(
                old(sched)@,
                old(pm)@,
                SchedMode { bits: SchedMode::SM_NONE },
                sample,
                again,
                next,
                after,
                sched@,
                pm1,
            ));
        }
    }
    again
}

/// A task that a signal keeps from falling asleep stays on its queue and can run, and
/// the queue is the same as before.
pub proof fn law_signal_keeps_a_task_awake<K: SchedClasses>(
    state: RqState,
    t: TaskId,
    after: RqState,
)
    requires
        state.pm.has(t),
        state.pm.task(t).is_leaving(),
        state.pm.task(t).kept_by_signal(),
        state.block::<K>(t, after),
    ensures
        after.rq == state.rq,
        after.pm.task(t).sched_info.state == ProcessState::Runnable,
        !after.pm.task(t).is_leaving(),
        after.pm.task(t).sched_info.on_rq == state.pm.task(t).sched_info.on_rq,
{
}

/// A task that is preempted, and one that moves away, is never put to sleep by that.
pub proof fn law_preempted_task_does_not_fall_asleep<K: SchedClasses>(
    start: PassState,
    prev: TaskId,
    sched_mod: SchedMode,
    moved: PassState,
    blocked: RqState,
    next: TaskId,
    picked: RqState,
)
    requires
        sched_mod.contains(SchedMode::SM_PREEMPT) || start.pm.task(prev).migration_target() is Some,
        start.decide_path::<K>(prev, sched_mod, moved, blocked, next, picked),
    ensures
        blocked == moved.here(),
{
}

/// A task that waits for input or output is marked so, and nothing else changes.
pub proof fn law_mark_of_a_wait(pm: ProcessManagerView, t: TaskId, v: bool)
    requires
        pm.has(t),
    ensures
        pm.with_iowait(t, v).tasks[t as int].flags == (crate::process::pcb::ProcessFlags {
            in_iowait: v,
            ..pm.tasks[t as int].flags
        }),
        pm.with_iowait(t, v).tasks[t as int].sched_info == pm.tasks[t as int].sched_info,
        pm.with_iowait(t, v).actions == pm.actions,
        forall|u: TaskId|
            pm.has(u) && u != t ==> #[trigger] pm.with_iowait(t, v).tasks[u as int]
                == pm.tasks[u as int],
{
}

} // verus!
