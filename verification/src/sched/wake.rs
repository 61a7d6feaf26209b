//! Waking tasks for a processor.
use crate::process::action::Action;
use crate::process::manager::{ProcessManager, ProcessManagerView};
use crate::process::pcb::{ProcessControlBlock, TaskId};
use crate::sched::flags::{EnqueueFlag, WakeupFlags};
use crate::sched::percpu::{
    SchedCore, SchedCoreView, __set_task_cpu, cpu_rq, send_resched_ipi, task_cpu,
};
use crate::sched::policy::{OnRq, SchedPolicy};
use crate::sched::rq::{ClockSample, CpuRunQueue};
use crate::sched::scheduler::{FairScheduler, RqState, SchedClasses};
use crate::smp::cpu::{ProcessorId, MAX_CPU_NUM};
use vstd::prelude::*;

verus! {

/// The state while the wake queue of a processor is emptied: the run queue that is
/// being worked on, everything else, and whether a task had to be put back.
pub struct WakeState {
    pub rq: CpuRunQueue,
    pub sched: SchedCoreView,
    pub pm: ProcessManagerView,
    pub requeued: bool,
}

impl WakeState {
    /// The run queue and the tasks.
    pub open spec fn here(self) -> RqState {
        RqState { rq: self.rq, pm: self.pm }
    }

    /// Whether `t` need not be woken: it has exited, it is queued already, or it is
    /// what runs here.
    pub open spec fn is_stale(self, t: TaskId) -> bool {
        let info = self.pm.task(t).sched_info;
        ||| info.state.is_exited()
        ||| info.on_rq == OnRq::Queued
        ||| info.on_cpu == Some(self.rq.cpu) && self.rq.current == Some(t)
    }

    /// Whether `t` comes from another processor.
    pub open spec fn migrates(self, t: TaskId) -> bool {
        self.pm.task(t).sched_info.cpu != self.rq.cpu
    }

    /// `t` is put back into the wake queue.
    pub open spec fn put_back(self, t: TaskId) -> WakeState {
        WakeState {
            sched: self.sched.with_wakequeue(
                self.rq.cpu,
                self.sched.wakequeue(self.rq.cpu).push(t),
            ),
            requeued: true,
            ..self
        }
    }

    /// The task `t` as it is put on the run queue of this processor.
    pub open spec fn woken_task(self, t: TaskId) -> ProcessControlBlock {
        let p = self.pm.task(t);
        if self.migrates(t) {
            p.placed_on(self.rq.cpu).woken()
        } else {
            p.woken()
        }
    }

    /// The books are set right for `t`: the processor that it slept on had it as
    /// waiting for input or output, this one as load.
    pub open spec fn accounted(self, t: TaskId) -> WakeState {
        let p = self.pm.task(t);
        let prev_cpu = p.sched_info.cpu;
        let rq = if p.flags.sched_contributes_to_load {
            CpuRunQueue {
                nr_uninterruptible: self.rq.nr_uninterruptible.wrapping_sub(1),
                ..self.rq
            }
        } else {
            self.rq
        };
        WakeState {
            rq: if !self.migrates(t) && p.flags.in_iowait {
                rq.iowait_decremented()
            } else {
                rq
            },
            sched: if self.migrates(t) && p.flags.in_iowait {
                self.sched.with_rq(prev_cpu, self.sched.rq(prev_cpu).iowait_decremented())
            } else {
                self.sched
            },
            pm: self.pm.with_task(t, self.woken_task(t)),
            requeued: self.requeued,
        }
    }

    /// The flags with which `t` is put on the run queue.
    pub open spec fn enqueue_flags(self, t: TaskId) -> EnqueueFlag {
        let f = EnqueueFlag { bits: EnqueueFlag::ENQUEUE_WAKEUP | EnqueueFlag::ENQUEUE_NOCLOCK };
        if self.migrates(t) {
            f.with(EnqueueFlag::ENQUEUE_MIGRATED)
        } else {
            f
        }
    }

    /// The flags with which `t` is compared with the running task.
    pub open spec fn wake_flags(self, t: TaskId) -> WakeupFlags {
        WakeupFlags {
            bits: if self.migrates(t) {
                WakeupFlags::WF_MIGRATED
            } else {
                0
            },
        }
    }

    /// The averages of `t` are set up on the way to `ready` if the fair class has never
    /// seen it run, it is put on the run queue on the way to `mid`, then compared with the
    /// running task.
    pub open spec fn wake_path<K: SchedClasses>(
        self,
        t: TaskId,
        ready: RqState,
        mid: RqState,
        after: WakeState,
    ) -> bool {
        &&& self.accounted(t).here().averages_set::<K>(
            self.accounted(t).here().never_ran(t),
            t,
            ready,
        )
        &&& ready.activate::<K>(
            t,
            self.enqueue_flags(t),
            ClockSample::unread(),
            mid,
        )
        &&& mid.check_preempt::<K>(t, self.wake_flags(t), after.here())
        &&& after.sched == self.accounted(t).sched
        &&& after.requeued == self.requeued
    }

    /// One task is taken out of the wake queue. A stale one is dropped, and one that
    /// still runs somewhere waits for the next round.
    pub open spec fn step<K: SchedClasses>(self, t: TaskId, after: WakeState) -> bool {
        if self.is_stale(t) {
            after == self
        } else if self.pm.task(t).sched_info.on_cpu is Some {
            after == self.put_back(t)
        } else {
            exists|ready: RqState, mid: RqState| self.wake_path::<K>(t, ready, mid, after)
        }
    }

    /// The tasks of a list are taken one after the other.
    pub open spec fn steps<K: SchedClasses>(self, list: Seq<TaskId>, after: WakeState) -> bool
        decreases list.len(),
    {
        if list.len() == 0 {
            after == self
        } else {
            exists|mid: WakeState|
                self.steps::<K>(list.drop_last(), mid) && #[trigger] mid.step::<K>(
                    list.last(),
                    after,
                )
        }
    }

    /// Whether `t` can be woken here, if it has to be.
    pub open spec fn wakeable(self, t: TaskId) -> bool {
        &&& self.pm.has(t)
        &&& self.wakes(t) ==> self.pm.task(t).sched_info.policy != SchedPolicy::RT
            && self.can_take(t)
    }

    /// Whether `t` can come here from where it slept: this processor may be given tasks,
    /// and if `t` was counted as waiting for input or output, it was so on a processor
    /// that there is.
    pub open spec fn can_take(self, t: TaskId) -> bool {
        self.migrates(t) ==> {
            &&& self.sched.accepts_tasks(self.rq.cpu)
            &&& self.pm.task(t).flags.in_iowait ==> self.pm.task(t).sched_info.cpu.id
                < MAX_CPU_NUM
        }
    }

    /// Whether `t` has to wait for the next round: it still runs somewhere.
    pub open spec fn still_runs(self, t: TaskId) -> bool {
        !self.is_stale(t) && self.pm.task(t).sched_info.on_cpu is Some
    }

    /// Whether `t` is put on the run queue.
    pub open spec fn wakes(self, t: TaskId) -> bool {
        !self.is_stale(t) && self.pm.task(t).sched_info.on_cpu is None
    }

    /// The tasks of a list that have to wait for the next round, in order.
    pub open spec fn remaining(self, list: Seq<TaskId>) -> Seq<TaskId> {
        list.filter(|t: TaskId| self.still_runs(t))
    }

    /// What becomes of a task when a list of tasks is taken out of the wake queue: one of
    /// the list that has to be woken is queued here and counts no longer as load in its
    /// sleep, and any other one is as a scheduling class leaves it.
    pub open spec fn left_as(
        self,
        list: Seq<TaskId>,
        t: TaskId,
        after: ProcessControlBlock,
    ) -> bool {
        if self.wakes(t) && list.contains(t) {
            &&& after.sched_info.on_rq == OnRq::Queued
            &&& after.sched_info.cpu == self.rq.cpu
            &&& !after.flags.sched_contributes_to_load
        } else {
            self.pm.task(t).spared_by_class(after)
        }
    }

    /// One more task in the list.
    proof fn lemma_remaining(self, list: Seq<TaskId>, t: TaskId)
        ensures
            self.remaining(list.push(t)) == if self.still_runs(t) {
                self.remaining(list).push(t)
            } else {
                self.remaining(list)
            },
            forall|u: TaskId| #[trigger]
                list.push(t).contains(u) <==> list.contains(u) || u == t,
    {
        reveal(Seq::filter);
        assert(list.push(t).drop_last() =~= list);
        assert forall|u: TaskId| #[trigger]
            list.push(t).contains(u) <==> list.contains(u) || u == t by {
            if list.contains(u) {
                let k = choose|k: int| 0 <= k < list.len() && list[k] == u;
                assert(list.push(t)[k] == u);
            }
            assert(list.push(t)[list.len() as int] == t);
        }
    }

    /// The tables are in order.
    pub open spec fn wf(self) -> bool {
        &&& self.here().wf()
        &&& self.here().has_curr()
        &&& self.sched.wf()
        &&& self.rq.cpu.id < MAX_CPU_NUM
    }
}

/// The wake queue of a processor is emptied on the way to `last`; if nothing was put
/// back, nothing waits any more.
pub open spec fn drain_path<K: SchedClasses>(
    rq: CpuRunQueue,
    sched: SchedCoreView,
    pm: ProcessManagerView,
    last: WakeState,
    rq_after: CpuRunQueue,
) -> bool {
    let start = WakeState {
        rq,
        sched: sched.with_wakequeue(rq.cpu, Seq::empty()),
        pm,
        requeued: false,
    };
    &&& start.steps::<K>(sched.wakequeue(rq.cpu), last)
    &&& rq_after == if last.requeued {
        last.rq
    } else {
        CpuRunQueue { ttwu_pending: false, ..last.rq }
    }
}

impl RqState {
    /// Whether the fair class has never seen `t` run.
    pub open spec fn never_ran(self, t: TaskId) -> bool {
        self.policy(t) == SchedPolicy::CFS && self.pm.task(t).sched_info.sched_entity.util_avg == 0
    }

    /// The averages of `t` are set up, if they have to be.
    pub open spec fn averages_set<K: SchedClasses>(
        self,
        has_to: bool,
        t: TaskId,
        after: RqState,
    ) -> bool {
        if has_to {
            self.spares(after) && K::Fair::post_init_util_avg_rel(self, t, after)
        } else {
            after == self
        }
    }
}

impl ProcessControlBlock {
    pub open spec fn spec_woken(&self) -> ProcessControlBlock {
        if self.flags.sched_contributes_to_load {
            self.with_flags(self.flags.with_sched_contributes_to_load(false))
        } else {
            *self
        }
    }

    /// The task as it is put on a run queue after a sleep: it no longer counts as
    /// load in its sleep.
    #[verifier::when_used_as_spec(spec_woken)]
    pub fn woken(&self) -> (pcb: ProcessControlBlock)
        ensures
            pcb == self.woken(),
    {
        if self.flags.sched_contributes_to_load {
            self.with_flags(self.flags.with_sched_contributes_to_load(false))
        } else {
            *self
        }
    }

    /// Being woken changes little of a task.
    pub proof fn lemma_woken(self)
        ensures
            self.stays(self.woken()),
            self.woken().sighand == self.sighand,
            self.woken().sched_info.cpu == self.sched_info.cpu,
            self.woken().sched_info.on_rq == self.sched_info.on_rq,
    {
    }
}

impl WakeState {
    #[verifier::inline]
    pub open spec fn of(
        rq: CpuRunQueue,
        sched: SchedCoreView,
        pm: ProcessManagerView,
        requeued: bool,
    ) -> WakeState {
        WakeState { rq, sched, pm, requeued }
    }
}

impl CpuRunQueue {
    /// The books of the processor that `t` slept on, if it is another one, are set
    /// right, and `t` moves here.
    fn take_over(&self, sched: &mut SchedCore, pm: &mut ProcessManager, t: TaskId)
        requires
            WakeState::of(*self, old(sched)@, old(pm)@, false).wf(),
            old(pm)@.has(t),
            WakeState::of(*self, old(sched)@, old(pm)@, false).can_take(t),
            old(pm)@.task(t).sched_info.policy != SchedPolicy::RT,
            old(pm)@.task(t).sched_info.on_rq != OnRq::Queued,
            old(pm)@.task(t).sched_info.cpu != self.cpu,
        ensures
            final(sched)@ == WakeState::of(*self, old(sched)@, old(pm)@, false).accounted(t).sched,
            final(sched)@.wf(),
            final(sched)@.smp == old(sched)@.smp,
            final(sched)@.system_state == old(sched)@.system_state,
            final(sched)@.domains == old(sched)@.domains,
            final(pm)@ == old(pm)@.with_task(t, old(pm)@.task(t).placed_on(self.cpu)),
    {
        let prev_cpu = task_cpu(pm, t);
        if pm.task(t).flags.in_iowait {
            let mut prev_rq = cpu_rq(sched, prev_cpu.data() as usize);
            prev_rq.dec_nr_iowait();
            proof {
                sched@.lemma_with_rq(prev_cpu, prev_rq);
            }
            sched.set_rq(prev_cpu, prev_rq);
        }
        __set_task_cpu(sched, pm, t, self.cpu);
    }

    /// Sets the books right for `t`, which is about to be put on this queue.
    fn account_wakeup(&mut self, sched: &mut SchedCore, pm: &mut ProcessManager, t: TaskId)
        requires
            WakeState::of(*old(self), old(sched)@, old(pm)@, false).wf(),
            old(pm)@.has(t),
            WakeState::of(*old(self), old(sched)@, old(pm)@, false).can_take(t),
            old(pm)@.task(t).sched_info.policy != SchedPolicy::RT,
            old(pm)@.task(t).sched_info.on_rq != OnRq::Queued,
        ensures
            WakeState::of(*final(self), final(sched)@, final(pm)@, false) == WakeState::of(
                *old(self),
                old(sched)@,
                old(pm)@,
                false,
            ).accounted(t),
            RqState::of(*old(self), old(pm)@).stays(RqState::of(*final(self), final(pm)@)),
            final(sched)@.wf(),
            final(sched)@.smp == old(sched)@.smp,
            final(sched)@.system_state == old(sched)@.system_state,
            final(sched)@.domains == old(sched)@.domains,
    {
        let ghost start = WakeState::of(*self, sched@, pm@, false);
        let p = pm.task(t);
        let migrated = p.sched_info.cpu != self.cpu;
        if migrated {
            self.take_over(sched, pm, t);
        }
        let ghost moved = pm@.task(t);
        if p.flags.sched_contributes_to_load {
            self.dec_nr_uninterruptible();
        }
        if !migrated && p.flags.in_iowait {
            self.dec_nr_iowait();
        }
        let q = pm.task(t).woken();
        pm.set_task(t, q);
        proof {
            start.pm.lemma_with_task_twice(t, moved, q);
            moved.lemma_woken();
            start.here().lemma_stays_step(t, q, *self);
        }
    }

    /// Sets the books right for `t`, and has its averages set up if the fair class has never
    /// seen it run.
    fn make_ready<K: SchedClasses>(
        &mut self,
        sched: &mut SchedCore,
        pm: &mut ProcessManager,
        t: TaskId,
    )
        requires
            WakeState::of(*old(self), old(sched)@, old(pm)@, false).wf(),
            old(pm)@.has(t),
            WakeState::of(*old(self), old(sched)@, old(pm)@, false).can_take(t),
            old(pm)@.task(t).sched_info.policy != SchedPolicy::RT,
            old(pm)@.task(t).sched_info.on_rq != OnRq::Queued,
        ensures
            ({
                let start = WakeState::of(*old(self), old(sched)@, old(pm)@, false);
                let accounted = start.accounted(t).here();
                &&& accounted.averages_set::<K>(
                    accounted.never_ran(t),
                    t,
                    RqState::of(*final(self), final(pm)@),
                )
                &&& final(sched)@ == start.accounted(t).sched
            }),
            RqState::of(*old(self), old(pm)@).stays(RqState::of(*final(self), final(pm)@)),
            RqState::of(*old(self), old(pm)@).spares_others(
                t,
                RqState::of(*final(self), final(pm)@),
            ),
            final(pm)@.task(t).sched_info.on_rq == old(pm)@.task(t).sched_info.on_rq,
            final(pm)@.task(t).sched_info.cpu == old(self).cpu,
            !final(pm)@.task(t).flags.sched_contributes_to_load,
            final(self).ttwu_pending == old(self).ttwu_pending,
            final(sched)@.wakequeues == old(sched)@.wakequeues,
            final(sched)@.wf(),
            final(sched)@.smp == old(sched)@.smp,
            final(sched)@.system_state == old(sched)@.system_state,
            final(sched)@.domains == old(sched)@.domains,
    {
        let ghost start = WakeState::of(*self, sched@, pm@, false);
        self.account_wakeup(sched, pm, t);
        let ghost s1 = RqState::of(*self, pm@);
        proof {
            start.here().lemma_others_same(t, start.woken_task(t), s1.rq);
            start.here().lemma_stayed(s1);
            start.pm.task(t).lemma_woken();
            start.pm.task(t).placed_on(self.cpu).lemma_woken();
        }
        let info = pm.task(t).sched_info;
        if info.policy == SchedPolicy::CFS && info.sched_entity.util_avg == 0 {
            K::Fair::post_init_entity_util_avg(self, pm, t);
        } else {
            proof {
                s1.lemma_spares_self();
            }
        }
        proof {
            let ready = RqState::of(*self, pm@);
            s1.lemma_spares_keeps(ready);
            s1.lemma_spared(ready, t);
            s1.lemma_stays(ready);
            start.here().lemma_stays_on(s1, ready);
            assert(s1.spares_others(t, ready));
            start.here().lemma_others(t, s1, ready);
        }
    }

    /// Puts `t`, which runs nowhere, on this queue, and looks whether it may preempt
    /// the running task.
    fn wake_task<K: SchedClasses>(
        &mut self,
        sched: &mut SchedCore,
        pm: &mut ProcessManager,
        t: TaskId,
    )
        requires
            WakeState::of(*old(self), old(sched)@, old(pm)@, false).wf(),
            old(pm)@.has(t),
            WakeState::of(*old(self), old(sched)@, old(pm)@, false).can_take(t),
            old(pm)@.task(t).sched_info.policy != SchedPolicy::RT,
            old(pm)@.task(t).sched_info.on_rq != OnRq::Queued,
        ensures
            exists|ready: RqState, mid: RqState|
                WakeState::of(*old(self), old(sched)@, old(pm)@, false).wake_path::<K>(
                    t,
                    ready,
                    mid,
                    WakeState::of(*final(self), final(sched)@, final(pm)@, false),
                ),
            RqState::of(*old(self), old(pm)@).stays(RqState::of(*final(self), final(pm)@)),
            final(pm)@.task(t).sched_info.on_rq == OnRq::Queued,
            final(pm)@.task(t).sched_info.cpu == old(self).cpu,
            !final(pm)@.task(t).flags.sched_contributes_to_load,
            RqState::of(*old(self), old(pm)@).spares_others(
                t,
                RqState::of(*final(self), final(pm)@),
            ),
            final(self).ttwu_pending == old(self).ttwu_pending,
            final(sched)@.wakequeues == old(sched)@.wakequeues,
            final(sched)@.wf(),
            final(sched)@.smp == old(sched)@.smp,
            final(sched)@.system_state == old(sched)@.system_state,
            final(sched)@.domains == old(sched)@.domains,
    {
        let ghost start = WakeState::of(*self, sched@, pm@, false);
        let migrated = task_cpu(pm, t) != self.cpu;
        self.make_ready::<K>(sched, pm, t);
        let ghost ready = RqState::of(*self, pm@);
        proof {
            start.here().lemma_stayed(ready);
            assert(start.pm.task(t).stays(ready.pm.task(t)));
            lemma_noclock_stays();
        }
        let mut flags = EnqueueFlag {
            bits: EnqueueFlag::ENQUEUE_WAKEUP | EnqueueFlag::ENQUEUE_NOCLOCK,
        };
        if migrated {
            flags = flags.with(EnqueueFlag::ENQUEUE_MIGRATED);
        }
        self.activate_task::<K>(pm, t, flags, ClockSample::unread());
        let ghost s2 = RqState::of(*self, pm@);
        proof {
            ready.lemma_kept(s2);
            assert(ready.pm.task(t).kept_facts(s2.pm.task(t)));
            ready.lemma_stays(s2);
            start.here().lemma_stays_on(ready, s2);
            start.here().lemma_others(t, ready, s2);
        }
        let wake_flags = if migrated {
            WakeupFlags { bits: WakeupFlags::WF_MIGRATED }
        } else {
            WakeupFlags { bits: 0 }
        };
        self.check_preempt_current::<K>(pm, t, wake_flags);
        proof {
            let s3 = RqState::of(*self, pm@);
            s2.lemma_spares_keeps(s3);
            s2.lemma_kept(s3);
            s2.lemma_stays(s3);
            s2.lemma_spared(s3, t);
            assert(s2.spares_others(t, s3));
            start.here().lemma_others(t, s2, s3);
            start.here().lemma_stays_on(s2, s3);
            let last = WakeState::of(*self, sched@, pm@, false);
            assert(start.wake_path::<K>(t, ready, s2, last));
        }
    }

    /// Puts the tasks of the wake queue of this processor on the run queue, whose lock
    /// is held and whose clock is up to date. Tasks that still run somewhere stay in
    /// the wake queue for the next round; if none does, no wakeup is pending here.
    pub fn drain_wake_queue<K: SchedClasses>(
        &mut self,
        sched: &mut SchedCore,
        pm: &mut ProcessManager,
    )
        requires
            WakeState::of(*old(self), old(sched)@, old(pm)@, false).wf(),
            forall|i: int|
                0 <= i < old(sched)@.wakequeue(old(self).cpu).len() ==> WakeState::of(
                    *old(self),
                    old(sched)@,
                    old(pm)@,
                    false,
                ).wakeable(#[trigger] old(sched)@.wakequeue(old(self).cpu)[i]),
        ensures
            exists|last: WakeState|
                #[trigger] drain_path::<K>(
                    *old(self),
                    old(sched)@,
                    old(pm)@,
                    last,
                    *final(self),
                ) && final(sched)@ == last.sched && final(pm)@ == last.pm,
            RqState::of(*old(self), old(pm)@).stays(RqState::of(*final(self), final(pm)@)),
            forall|t: TaskId|
                old(pm)@.has(t) ==> WakeState::of(*old(self), old(sched)@, old(pm)@, false).left_as(
                    old(sched)@.wakequeue(old(self).cpu),
                    t,
                    #[trigger] final(pm)@.task(t),
                ),
            final(sched)@.wakequeue(old(self).cpu) == WakeState::of(
                *old(self),
                old(sched)@,
                old(pm)@,
                false,
            ).remaining(old(sched)@.wakequeue(old(self).cpu)),
            final(self).ttwu_pending == (old(self).ttwu_pending && final(sched)@.wakequeue(
                old(self).cpu,
            ).len() > 0),
            final(sched)@.wf(),
            final(sched)@.smp == old(sched)@.smp,
            final(sched)@.system_state == old(sched)@.system_state,
            final(sched)@.domains == old(sched)@.domains,
    {
        let ghost before = RqState::of(*self, pm@);
        let cpu = self.cpu;
        let list = sched.drain_wakequeue(cpu);
        proof {
            old(sched)@.lemma_with_wakequeue(cpu, Seq::empty());
            before.lemma_keeps_self();
            before.lemma_stays(before);
        }
        let ghost entry = WakeState::of(*old(self), old(sched)@, old(pm)@, false);
        let ghost start = WakeState::of(*self, sched@, pm@, false);
        let mut requeued = false;
        let mut i: usize = 0;
        assert(list@.take(0) =~= Seq::<TaskId>::empty());
        proof {
            reveal(Seq::filter);
            assert forall|u: TaskId| pm@.has(u) implies entry.left_as(
                list@.take(0),
                u,
                #[trigger] pm@.task(u),
            ) by {
                pm@.task(u).lemma_kept_self();
            }
        }
        while i < list.len()
            invariant
                i <= list@.len(),
                cpu == self.cpu,
                start.here() == before,
                start.steps::<K>(
                    list@.take(i as int),
                    WakeState::of(*self, sched@, pm@, requeued),
                ),
                before.stays(RqState::of(*self, pm@)),
                WakeState::of(*self, sched@, pm@, requeued).wf(),
                entry == WakeState::of(*old(self), old(sched)@, old(pm)@, false),
                entry.here() == before,
                entry.sched.smp == start.sched.smp,
                entry.sched.system_state == start.sched.system_state,
                forall|k: int| 0 <= k < list@.len() ==> entry.wakeable(#[trigger] list@[k]),
                pm@.tasks.len() == entry.pm.tasks.len(),
                self.current == entry.rq.current,
                self.cpu == entry.rq.cpu,
                self.ttwu_pending == entry.rq.ttwu_pending,
                forall|u: TaskId|
                    entry.pm.has(u) ==> entry.left_as(
                        list@.take(i as int),
                        u,
                        #[trigger] pm@.task(u),
                    ),
                sched@.wakequeue(cpu) == entry.remaining(list@.take(i as int)),
                requeued <==> sched@.wakequeue(cpu).len() > 0,
                sched@.smp == start.sched.smp,
                sched@.system_state == start.sched.system_state,
                sched@.domains == start.sched.domains,
            decreases list@.len() - i,
        {
            let t = list[i];
            let ghost cur = WakeState::of(*self, sched@, pm@, requeued);
            let ghost now = RqState::of(*self, pm@);
            let ghost taken = list@.take(i as int);
            proof {
                assert(entry.wakeable(list@[i as int]));
                assert(entry.left_as(taken, t, pm@.task(t)));
                if !(entry.wakes(t) && taken.contains(t)) {
                    entry.pm.task(t).lemma_kept(pm@.task(t));
                    assert(cur.is_stale(t) == entry.is_stale(t));
                }
                entry.lemma_remaining(taken, t);
                assert(list@.take(i + 1) =~= taken.push(t));
            }
            let info = pm.task(t).sched_info;
            if info.state.is_exited() || info.on_rq == OnRq::Queued || (info.on_cpu == Some(cpu)
                && t == self.current()) {
                assert(cur.step::<K>(t, cur));
            } else if info.on_cpu.is_some() {
                sched.push_wakequeue(cpu, t);
                requeued = true;
                proof {
                    cur.sched.lemma_with_wakequeue(cpu, cur.sched.wakequeue(cpu).push(t));
                }
                assert(cur.step::<K>(t, WakeState::of(*self, sched@, pm@, requeued)));
            } else {
                self.wake_task::<K>(sched, pm, t);
                proof {
                    let after = WakeState::of(*self, sched@, pm@, requeued);
                    let last = WakeState::of(*self, sched@, pm@, false);
                    let from = WakeState::of(now.rq, cur.sched, now.pm, false);
                    let (ready, mid) = choose|ready: RqState, mid: RqState|
                        from.wake_path::<K>(t, ready, mid, last);
                    assert(cur.wake_path::<K>(t, ready, mid, after));
                    assert(cur.step::<K>(t, after));
                    assert forall|u: TaskId| entry.pm.has(u) implies entry.left_as(
                        taken.push(t),
                        u,
                        #[trigger] pm@.task(u),
                    ) by {
                        assert(entry.left_as(taken, u, now.pm.task(u)));
                        if u != t {
                            now.lemma_other(t, RqState::of(*self, pm@), u);
                            if !(entry.wakes(u) && taken.contains(u)) {
                                entry.pm.task(u).lemma_kept_on(now.pm.task(u), pm@.task(u));
                            }
                        }
                    }
                    now.lemma_stayed(RqState::of(*self, pm@));
                    before.lemma_stays_on(now, RqState::of(*self, pm@));
                }
            }
            proof {
                let next = list@.take(i + 1);
                assert(next.drop_last() =~= list@.take(i as int));
                assert(next.last() == t);
            }
            i = i + 1;
        }
        assert(list@.take(i as int) =~= list@);
        let ghost last = WakeState::of(*self, sched@, pm@, requeued);
        if !requeued {
            self.ttwu_pending = false;
        }
        proof {
            let after = RqState::of(*self, pm@);
            last.here().lemma_stays_step(pm@.current, pm@.task(pm@.current), *self);
            before.lemma_stays_on(last.here(), after);
            assert(drain_path::<K>(*old(self), old(sched)@, old(pm)@, last, *self));
        }
    }
}

impl SchedCoreView {
    /// `t` waits in the wake queue of a processor.
    pub open spec fn with_waiting(self, cpu: ProcessorId, t: TaskId) -> SchedCoreView {
        self.with_rq(cpu, CpuRunQueue { ttwu_pending: true, ..self.rq(cpu) }).with_wakequeue(
            cpu,
            self.wakequeue(cpu).push(t),
        )
    }
}

/// Puts `t` into the wake queue of a processor and interrupts that.
pub fn wakequeue_push_and_kick(
    sched: &mut SchedCore,
    pm: &mut ProcessManager,
    cpu: ProcessorId,
    t: TaskId,
)
    requires
        old(sched)@.wf(),
        cpu.id < MAX_CPU_NUM,
    ensures
        final(sched)@ == old(sched)@.with_waiting(cpu, t),
        final(sched)@.wf(),
        final(pm)@ == old(pm)@.with_action(Action::ReschedIpi(cpu)),
{
    let mut rq = cpu_rq(sched, cpu.data() as usize);
    rq.ttwu_pending = true;
    proof {
        sched@.lemma_with_rq(cpu, rq);
    }
    sched.set_rq(cpu, rq);
    proof {
        sched@.lemma_with_wakequeue(cpu, sched@.wakequeue(cpu).push(t));
    }
    sched.push_wakequeue(cpu, t);
    send_resched_ipi(pm, cpu);
}

/// Has `t` woken by the processor that it goes to.
pub fn ttwu_queue(
    sched: &mut SchedCore,
    pm: &mut ProcessManager,
    t: TaskId,
    cpu: ProcessorId,
    _wake_flags: WakeupFlags,
)
    requires
        old(sched)@.wf(),
        cpu.id < MAX_CPU_NUM,
    ensures
        final(sched)@ == old(sched)@.with_waiting(cpu, t),
        final(sched)@.wf(),
        final(pm)@ == old(pm)@.with_action(Action::ReschedIpi(cpu)),
{
    wakequeue_push_and_kick(sched, pm, cpu, t);
}

/// Where a new task goes: to the processor that was selected for it, or stays here if
/// none could be selected.
pub open spec fn fork_target(pm: ProcessManagerView, selected: ProcessorId) -> ProcessorId {
    if selected.is_invalid() {
        pm.cpu
    } else {
        selected
    }
}

/// A new task as it is woken on a processor.
pub open spec fn new_task(
    pm: ProcessManagerView,
    t: TaskId,
    cpu: ProcessorId,
) -> ProcessControlBlock {
    pm.task(t).runnable().placed_on(cpu)
}

/// The queue and the tasks as a new task is put on the queue of the processor at work.
pub open spec fn new_task_entry(
    sched: SchedCoreView,
    pm: ProcessManagerView,
    t: TaskId,
    sample: ClockSample,
) -> RqState {
    RqState {
        rq: sched.rq(pm.cpu).with_lock(true).clocked(sample),
        pm: pm.with_task(t, new_task(pm, t, pm.cpu)).irq_off().preempt_disabled(),
    }
}

/// The averages of a new task are set up on the way to `ready`, it is put on the queue of
/// the processor at work on the way to `mid`, and compared with the running task on the way
/// to `end`.
pub open spec fn new_task_path<K: SchedClasses>(
    entry: RqState,
    t: TaskId,
    ready: RqState,
    mid: RqState,
    end: RqState,
) -> bool {
    &&& entry.averages_set::<K>(true, t, ready)
    &&& ready.activate::<K>(
        t,
        EnqueueFlag { bits: EnqueueFlag::ENQUEUE_NOCLOCK },
        ClockSample::unread(),
        mid,
    )
    &&& mid.check_preempt::<K>(t, WakeupFlags { bits: WakeupFlags::WF_FORK }, end)
}

/// Puts a new task on the queue of the processor at work, with interrupts off.
fn wake_up_local<K: SchedClasses>(
    sched: &mut SchedCore,
    pm: &mut ProcessManager,
    t: TaskId,
    sample: ClockSample,
) -> (end: Ghost<RqState>)
    requires
        old(sched)@.wf(),
        old(pm)@.wf(),
        old(pm)@.cpu.id < MAX_CPU_NUM,
        old(pm)@.has(t),
        !old(pm)@.irq_enabled,
        old(pm)@.task(t).sched_info.policy != SchedPolicy::RT,
        old(pm)@.task(t).sched_info.on_rq != OnRq::Queued,
        !old(sched)@.rq(old(pm)@.cpu).lock.locked,
        RqState::of(old(sched)@.rq(old(pm)@.cpu), old(pm)@).has_curr(),
    ensures
        exists|ready: RqState, mid: RqState|
            new_task_path::<K>(
                RqState::of(
                    old(sched)@.rq(old(pm)@.cpu).with_lock(true).clocked(sample),
                    old(pm)@.preempt_disabled(),
                ),
                t,
                ready,
                mid,
                end@,
            ),
        final(sched)@ == old(sched)@.with_rq(old(pm)@.cpu, end@.rq.with_lock(false)),
        final(sched)@.wf(),
        final(pm)@ == end@.pm.preempt_enabled(),
        final(pm)@.task(t).sched_info.on_rq == OnRq::Queued,
        final(pm)@.task(t).sched_info.cpu == old(pm)@.task(t).sched_info.cpu,
        final(pm)@.wf(),
        !final(pm)@.irq_enabled,
{
    let cpu = pm.cpu;
    let mut rq = cpu_rq(sched, cpu.data() as usize);
    let guard = rq.self_lock(pm);
    rq.update_rq_clock(pm.cpu, sample);
    proof {
        crate::sched::flags::lemma_flag_words();
        assert(old(pm)@.irq_off() == old(pm)@);
    }
    let ghost s1 = RqState::of(rq, pm@);
    K::Fair::post_init_entity_util_avg(&mut rq, pm, t);
    let ghost ready = RqState::of(rq, pm@);
    proof {
        s1.lemma_spared(ready, t);
    }
    rq.activate_task::<K>(
        pm,
        t,
        EnqueueFlag { bits: EnqueueFlag::ENQUEUE_NOCLOCK },
        ClockSample::unread(),
    );
    let ghost s2 = RqState::of(rq, pm@);
    proof {
        ready.lemma_kept(s2);
        assert(ready.pm.task(t).kept_facts(s2.pm.task(t)));
    }
    rq.check_preempt_current::<K>(pm, t, WakeupFlags { bits: WakeupFlags::WF_FORK });
    let ghost end = RqState::of(rq, pm@);
    proof {
        s2.lemma_spared(end, t);
        assert(new_task_path::<K>(s1, t, ready, s2, end));
    }
    rq.self_unlock(guard, pm);
    proof {
        sched@.lemma_with_rq(cpu, rq);
    }
    sched.set_rq(cpu, rq);
    Ghost(end)
}

/// Wakes a task that was just forked, with `selected` as the processor that was
/// selected for it.
pub fn wake_up_new_task<K: SchedClasses>(
    sched: &mut SchedCore,
    pm: &mut ProcessManager,
    t: TaskId,
    selected: ProcessorId,
    sample: ClockSample,
)
    requires
        old(sched)@.wf(),
        old(pm)@.wf(),
        old(pm)@.cpu.id < MAX_CPU_NUM,
        old(pm)@.has(t),
        old(pm)@.task(t).sched_info.on_rq != OnRq::Queued,
        fork_target(old(pm)@, selected).id < MAX_CPU_NUM,
        old(sched)@.accepts_tasks(fork_target(old(pm)@, selected)),
        fork_target(old(pm)@, selected) == old(pm)@.cpu ==> {
            &&& old(pm)@.task(t).sched_info.policy != SchedPolicy::RT
            &&& !old(sched)@.rq(old(pm)@.cpu).lock.locked
            &&& RqState::of(old(sched)@.rq(old(pm)@.cpu), old(pm)@).has_curr()
        },
    ensures
        fork_target(old(pm)@, selected) == old(pm)@.cpu ==> exists|
            ready: RqState,
            mid: RqState,
            end: RqState,
        |
            #[trigger] new_task_path::<K>(
                new_task_entry(old(sched)@, old(pm)@, t, sample),
                t,
                ready,
                mid,
                end,
            ) && final(sched)@ == old(sched)@.with_rq(old(pm)@.cpu, end.rq.with_lock(false))
                && final(pm)@ == (ProcessManagerView {
                irq_enabled: old(pm)@.irq_enabled,
                ..end.pm.preempt_enabled()
            }),
        fork_target(old(pm)@, selected) != old(pm)@.cpu ==> {
            let target = fork_target(old(pm)@, selected);
            &&& final(sched)@ == old(sched)@.with_waiting(target, t)
            &&& final(pm)@ == old(pm)@.with_task(t, new_task(old(pm)@, t, target)).with_action(
                Action::ReschedIpi(target),
            )
        },
        fork_target(old(pm)@, selected) == old(pm)@.cpu ==> final(pm)@.task(t).sched_info.on_rq
            == OnRq::Queued,
        final(pm)@.task(t).sched_info.cpu == fork_target(old(pm)@, selected),
        final(sched)@.wf(),
        final(pm)@.wf(),
{
    let ghost sched0 = sched@;
    let ghost pm0 = pm@;
    let irq_guard = pm.save_and_disable_irq();
    let woken = pm.task(t).runnable();
    pm.set_task(t, woken);
    let target_cpu = if selected.is_invalid() {
        pm.cpu
    } else {
        selected
    };
    __set_task_cpu(sched, pm, t, target_cpu);
    proof {
        pm0.irq_off().lemma_with_task_twice(t, woken, woken.placed_on(target_cpu));
        assert(pm@ == pm0.with_task(t, new_task(pm0, t, target_cpu)).irq_off());
    }
    let ghost pm1 = pm@;
    if target_cpu == pm.cpu {
        let Ghost(end) = wake_up_local::<K>(sched, pm, t, sample);
        proof {
            let entry = RqState::of(
                sched0.rq(pm0.cpu).with_lock(true).clocked(sample),
                pm1.preempt_disabled(),
            );
            assert(entry == new_task_entry(sched0, pm0, t, sample));
            let (ready, mid) = choose|ready: RqState, mid: RqState|
                new_task_path::<K>(entry, t, ready, mid, end);
            assert(new_task_path::<K>(
                new_task_entry(sched0, pm0, t, sample),
                t,
                ready,
                mid,
                end,
            ));
        }
    } else {
        ttwu_queue(sched, pm, t, target_cpu, WakeupFlags { bits: WakeupFlags::WF_FORK });
    }
    pm.restore_irq(Some(irq_guard));
}

/// Further flags do not take the wish for no clock update away.
pub proof fn lemma_noclock_stays()
    ensures
        forall|m: u8| #[trigger]
            (((EnqueueFlag::ENQUEUE_WAKEUP | EnqueueFlag::ENQUEUE_NOCLOCK) | m)
                & EnqueueFlag::ENQUEUE_NOCLOCK) == EnqueueFlag::ENQUEUE_NOCLOCK,
        forall|m: u8, n: u8| #[trigger]
            ((((EnqueueFlag::ENQUEUE_WAKEUP | EnqueueFlag::ENQUEUE_NOCLOCK) | m) | n)
                & EnqueueFlag::ENQUEUE_NOCLOCK) == EnqueueFlag::ENQUEUE_NOCLOCK,
        (EnqueueFlag::ENQUEUE_WAKEUP | EnqueueFlag::ENQUEUE_NOCLOCK)
            & EnqueueFlag::ENQUEUE_NOCLOCK == EnqueueFlag::ENQUEUE_NOCLOCK,
{
    assert forall|m: u8| #[trigger]
        (((EnqueueFlag::ENQUEUE_WAKEUP | EnqueueFlag::ENQUEUE_NOCLOCK) | m)
            & EnqueueFlag::ENQUEUE_NOCLOCK) == EnqueueFlag::ENQUEUE_NOCLOCK by {
        assert((((0x01u8 | 0x08u8) | m) & 0x08u8) == 0x08u8) by (bit_vector);
    }
    assert forall|m: u8, n: u8| #[trigger]
        ((((EnqueueFlag::ENQUEUE_WAKEUP | EnqueueFlag::ENQUEUE_NOCLOCK) | m) | n)
            & EnqueueFlag::ENQUEUE_NOCLOCK) == EnqueueFlag::ENQUEUE_NOCLOCK by {
        assert(((((0x01u8 | 0x08u8) | m) | n) & 0x08u8) == 0x08u8) by (bit_vector);
    }
    crate::sched::flags::lemma_flag_words();
}

/// Of the tasks in a wake queue those stay in it that still run elsewhere: neither have exited,
/// nor are queued, nor are what runs here.
pub proof fn law_tasks_that_stay_in_the_wake_queue(state: WakeState, list: Seq<TaskId>, t: TaskId)
    ensures
        state.remaining(list).contains(t) <==> {
            let info = state.pm.task(t).sched_info;
            &&& list.contains(t)
            &&& info.on_cpu is Some
            &&& !(info.state is Exited)
            &&& info.on_rq != OnRq::Queued
            &&& !(info.on_cpu == Some(state.rq.cpu) && state.rq.current == Some(t))
        },
    decreases list.len(),
{
    reveal(Seq::filter);
    if list.len() > 0 {
        let rest = list.drop_last();
        let last = list.last();
        assert(list =~= rest.push(last));
        law_tasks_that_stay_in_the_wake_queue(state, rest, t);
        state.lemma_remaining(rest, last);
        let kept = state.remaining(rest);
        if state.still_runs(last) {
            let longer = kept.push(last);
            if kept.contains(t) {
                let i = choose|i: int| 0 <= i < kept.len() && kept[i] == t;
                assert(longer[i] == t);
            }
            assert(longer[kept.len() as int] == last);
            if longer.contains(t) && t != last {
                let i = choose|i: int| 0 <= i < longer.len() && longer[i] == t;
                assert(kept[i] == t);
            }
        }
    }
}

/// A task out of a wake queue that runs nowhere, has not exited and is not queued is on the queue
/// here when the wake queue has been emptied, and belongs here. Every other task stands where it
/// stood.
pub proof fn law_what_emptying_a_wake_queue_does(
    state: WakeState,
    list: Seq<TaskId>,
    t: TaskId,
    after: ProcessControlBlock,
)
    requires
        state.left_as(list, t, after),
    ensures
        ({
            let info = state.pm.task(t).sched_info;
            let woken = list.contains(t) && info.on_cpu is None && !(info.state is Exited)
                && info.on_rq != OnRq::Queued;
            &&& woken ==> after.sched_info.on_rq == OnRq::Queued && after.sched_info.cpu
                == state.rq.cpu && !after.flags.sched_contributes_to_load
            &&& !woken ==> after.sched_info.on_rq == info.on_rq && after.sched_info.cpu == info.cpu
                && after.sched_info.state == info.state && after.flags.sched_contributes_to_load
                == state.pm.task(t).flags.sched_contributes_to_load
        }),
{
    if !(state.wakes(t) && list.contains(t)) {
        state.pm.task(t).lemma_kept(after);
    }
}

/// Averages of a task are set up when it is woken exactly if it is one of the fair class without
/// any utilisation yet.
pub proof fn law_whose_averages_are_set_up(state: RqState, t: TaskId)
    ensures
        state.never_ran(t) <==> state.pm.task(t).sched_info.policy == SchedPolicy::CFS
            && state.pm.task(t).sched_info.sched_entity.util_avg == 0,
{
}

} // verus!
