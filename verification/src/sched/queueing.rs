//! Putting tasks on a run queue, taking them off it, and choosing among them.
use crate::process::action::Action;
use crate::process::manager::ProcessManager;
use crate::process::pcb::{ProcessControlBlock, TaskId};
use crate::sched::entity::SchedInfo;
use crate::sched::flags::{ClockUpdataFlag, DequeueFlag, EnqueueFlag, WakeupFlags};
use crate::sched::policy::{OnRq, SchedPolicy};
use crate::sched::rq::{ClockSample, CpuRunQueue};
use crate::sched::scheduler::{FairScheduler, RqState, SchedClasses, Scheduler};
use vstd::prelude::*;

verus! {

impl RqState {
    /// The same with another task at a place.
    pub open spec fn with_task(self, t: TaskId, pcb: ProcessControlBlock) -> RqState {
        RqState { rq: self.rq, pm: self.pm.with_task(t, pcb) }
    }

    /// The same with one more thing to be done.
    pub open spec fn with_action(self, action: Action) -> RqState {
        RqState { rq: self.rq, pm: self.pm.with_action(action) }
    }

    /// What a scheduling class finds when `t` joins the queue: the clock is up to
    /// date unless the caller saw to that, and the wait of `t` has begun unless it
    /// had begun before or is only being restored.
    pub open spec fn before_enqueue(
        self,
        t: TaskId,
        flags: EnqueueFlag,
        sample: ClockSample,
    ) -> RqState {
        let rq = if flags.contains(EnqueueFlag::ENQUEUE_NOCLOCK) {
            self.rq
        } else {
            self.rq.clocked(sample)
        };
        let stat = self.pm.task(t).sched_info.sched_stat;
        let pm = if !flags.contains(EnqueueFlag::ENQUEUE_RESTORE) && stat.last_queued == 0 {
            self.pm.with_task(
                t,
                self.pm.task(t).with_sched_stat(SchedInfo { last_queued: rq.clock, ..stat }),
            )
        } else {
            self.pm
        };
        RqState { rq, pm }
    }

    /// What a scheduling class finds when `t` leaves the queue: the clock is up to
    /// date unless the caller saw to that, and the wait of `t`, if there was one and
    /// it is not only being saved, is over and counted for `t` and for the queue.
    pub open spec fn before_dequeue(
        self,
        t: TaskId,
        flags: DequeueFlag,
        sample: ClockSample,
    ) -> RqState {
        let rq = if flags.contains(DequeueFlag::DEQUEUE_NOCLOCK) {
            self.rq
        } else {
            self.rq.clocked(sample)
        };
        let stat = self.pm.task(t).sched_info.sched_stat;
        if !flags.contains(DequeueFlag::DEQUEUE_SAVE) && stat.last_queued > 0 {
            let delta = rq.clock.wrapping_sub(stat.last_queued);
            RqState {
                rq: CpuRunQueue {
                    sched_info: SchedInfo {
                        run_delay: rq.sched_info.run_delay.wrapping_add(delta),
                        ..rq.sched_info
                    },
                    ..rq
                },
                pm: self.pm.with_task(
                    t,
                    self.pm.task(t).with_sched_stat(
                        SchedInfo { last_queued: 0, run_delay: stat.run_delay.wrapping_add(delta) },
                    ),
                ),
            }
        } else {
            RqState { rq, pm: self.pm }
        }
    }

    /// Where a task stands once it left the queue for the reason in `flags`.
    pub open spec fn on_rq_after(flags: DequeueFlag) -> OnRq {
        if flags.intersects(DequeueFlag::DEQUEUE_SLEEP | DequeueFlag::DEQUEUE_STOPPED) {
            OnRq::Unqueued
        } else {
            OnRq::Migrating
        }
    }

    /// The flags with which `t` is enqueued.
    pub open spec fn activate_flags(self, t: TaskId, flags: EnqueueFlag) -> EnqueueFlag {
        if self.pm.task(t).sched_info.on_rq == OnRq::Migrating {
            flags.with(EnqueueFlag::ENQUEUE_MIGRATED)
        } else {
            flags
        }
    }

    /// The running task of the queue.
    pub open spec fn curr(self) -> TaskId {
        self.rq.current->Some_0
    }

    /// There is a running task.
    pub open spec fn has_curr(self) -> bool {
        self.rq.current is Some && self.pm.has(self.curr())
    }

    /// The running task is marked as one that should give up the processor.
    pub open spec fn asked(self) -> RqState {
        let curr = self.pm.task(self.curr());
        self.with_task(
            self.curr(),
            curr.with_flags(curr.flags.with_need_schedule(true)),
        )
    }

    /// The running task is asked to give up the processor. A foreign processor is
    /// interrupted, unless its task, not being the idle one, had been asked before.
    pub open spec fn resched(self) -> RqState {
        let curr = self.pm.task(self.curr());
        if self.rq.cpu == self.pm.cpu || (curr.flags.need_schedule && curr.sched_info.policy
            != SchedPolicy::IDLE) {
            self.asked()
        } else {
            self.asked().with_action(Action::ReschedIpi(self.rq.cpu))
        }
    }

    /// If the running task has to give up the processor, the clock need not be
    /// updated for that.
    pub open spec fn skip_requested(self) -> RqState {
        let curr = self.pm.task(self.curr());
        if curr.sched_info.on_rq == OnRq::Queued && curr.flags.need_schedule {
            RqState {
                rq: CpuRunQueue {
                    clock_updata_flags: self.rq.clock_updata_flags.with(
                        ClockUpdataFlag::RQCF_REQ_SKIP,
                    ),
                    ..self.rq
                },
                pm: self.pm,
            }
        } else {
            self
        }
    }

    /// The task that runs if the classes picked `picked`.
    pub open spec fn or_idle(self, picked: Option<TaskId>) -> TaskId {
        match picked {
            Some(t) => t,
            None => self.pm.upgrade(self.rq.idle)->Some_0,
        }
    }
}

/// Steps of the core of the scheduler as relations: `before.step(.., after)` says
/// that the step leads from `before` to `after`.
impl RqState {
    /// `t` is enqueued on the way to `mid`; from then on it counts as queued.
    pub open spec fn activate_path<K: SchedClasses>(
        self,
        t: TaskId,
        flags: EnqueueFlag,
        sample: ClockSample,
        mid: RqState,
        after: RqState,
    ) -> bool {
        let f = self.activate_flags(t, flags);
        &&& self.before_enqueue(t, f, sample).class_enqueue::<K>(self.policy(t), t, f, mid)
        &&& after == mid.with_task(t, mid.pm.task(t).with_on_rq(OnRq::Queued))
    }

    /// `t` is put on the queue.
    pub open spec fn activate<K: SchedClasses>(
        self,
        t: TaskId,
        flags: EnqueueFlag,
        sample: ClockSample,
        after: RqState,
    ) -> bool {
        exists|mid: RqState| self.activate_path::<K>(t, flags, sample, mid, after)
    }

    /// `t` is taken off the queue.
    pub open spec fn deactivate<K: SchedClasses>(
        self,
        t: TaskId,
        flags: DequeueFlag,
        sample: ClockSample,
        after: RqState,
    ) -> bool {
        let off = self.with_task(t, self.pm.task(t).with_on_rq(RqState::on_rq_after(flags)));
        off.before_dequeue(t, flags, sample).class_dequeue::<K>(self.policy(t), t, flags, after)
    }

    /// `t` is compared with the running task: in the same class the class decides,
    /// and a higher class preempts.
    pub open spec fn preempt_decision<K: SchedClasses>(
        self,
        t: TaskId,
        flags: WakeupFlags,
        after: RqState,
    ) -> bool {
        if self.policy(t) == self.policy(self.curr()) {
            self.class_check_preempt::<K>(self.policy(t), t, flags, after)
        } else if self.policy(t).outranks(self.policy(self.curr())) {
            after == self.resched()
        } else {
            after == self
        }
    }

    pub open spec fn check_preempt_path<K: SchedClasses>(
        self,
        t: TaskId,
        flags: WakeupFlags,
        mid: RqState,
        after: RqState,
    ) -> bool {
        self.preempt_decision::<K>(t, flags, mid) && after == mid.skip_requested()
    }

    /// `t` is compared with the running task, then the clock update is skipped if
    /// that one has to go.
    pub open spec fn check_preempt<K: SchedClasses>(
        self,
        t: TaskId,
        flags: WakeupFlags,
        after: RqState,
    ) -> bool {
        exists|mid: RqState| self.check_preempt_path::<K>(t, flags, mid, after)
    }

    /// `t` is compared with the running task of a foreign processor: as on the own
    /// one, but within the fair class nothing is decided, for that would take an
    /// up-to-date clock.
    pub open spec fn remote_decision<K: SchedClasses>(
        self,
        t: TaskId,
        flags: WakeupFlags,
        after: RqState,
    ) -> bool {
        if self.policy(t) == SchedPolicy::CFS && self.policy(self.curr()) == SchedPolicy::CFS {
            after == self
        } else {
            self.preempt_decision::<K>(t, flags, after)
        }
    }

    pub open spec fn check_remote_path<K: SchedClasses>(
        self,
        t: TaskId,
        flags: WakeupFlags,
        mid: RqState,
        after: RqState,
    ) -> bool {
        self.remote_decision::<K>(t, flags, mid) && after == mid.skip_requested()
    }

    /// `t` is compared with the running task of a foreign processor. One that has to
    /// go anyway is only woken if it is the idle one.
    pub open spec fn check_remote<K: SchedClasses>(
        self,
        t: TaskId,
        flags: WakeupFlags,
        after: RqState,
    ) -> bool {
        if self.pm.task(self.curr()).flags.need_schedule {
            after == if self.policy(self.curr()) == SchedPolicy::IDLE {
                self.resched()
            } else {
                self
            }
        } else {
            exists|mid: RqState| self.check_remote_path::<K>(t, flags, mid, after)
        }
    }

    /// The first-in-first-out class picks, if it has tasks.
    pub open spec fn fifo_pick<K: SchedClasses>(
        self,
        prev: TaskId,
        picked: Option<TaskId>,
        after: RqState,
    ) -> bool {
        if self.rq.fifo.nr_running > 0 {
            &&& self.spares(after)
            &&& K::Fifo::pick_next_task_rel(self, Some(prev), picked, after)
        } else {
            picked is None && after == self
        }
    }

    /// The fair class picks, if nothing was picked before.
    pub open spec fn fair_pick<K: SchedClasses>(
        self,
        prev: TaskId,
        fifo_picked: Option<TaskId>,
        picked: Option<TaskId>,
        after: RqState,
    ) -> bool {
        match fifo_picked {
            Some(_) => picked == fifo_picked && after == self,
            None => {
                &&& self.spares(after)
                &&& K::Fair::pick_next_task_rel(self, Some(prev), picked, after)
            },
        }
    }

    /// Whether the class of `prev` has to take it off the processor when `next` comes:
    /// another task comes next, and `prev` is still here.
    pub open spec fn puts_prev(self, prev: TaskId, next: TaskId) -> bool {
        prev != next && self.pm.task(prev).sched_info.on_cpu == Some(self.rq.cpu)
    }

    /// Whether the fair class is told of `next`: it is another task, and one of the
    /// class.
    pub open spec fn tells_next(self, prev: TaskId, next: TaskId) -> bool {
        prev != next && self.policy(next) == SchedPolicy::CFS
    }

    /// The class of `prev` takes it off the processor, if it has to.
    pub open spec fn put_prev<K: SchedClasses>(
        self,
        has_to: bool,
        prev: TaskId,
        after: RqState,
    ) -> bool {
        if has_to {
            self.class_put_prev::<K>(self.policy(prev), prev, after)
        } else {
            after == self
        }
    }

    /// The fair class is told of `next`, if it has to be.
    pub open spec fn next_told<K: SchedClasses>(
        self,
        has_to: bool,
        next: TaskId,
        after: RqState,
    ) -> bool {
        if has_to {
            self.spares(after) && K::Fair::set_next_task_rel(self, next, after)
        } else {
            after == self
        }
    }

    /// The first-in-first-out class picks on the way to `s1`, the fair class on the way to
    /// `s2`, `prev` is taken off the processor on the way to `s3`, and the fair class is
    /// told of `next`. Which task is the idle one, and what has to be done, is decided by
    /// how things were at first.
    pub open spec fn pick_path<K: SchedClasses>(
        self,
        prev: TaskId,
        fifo_picked: Option<TaskId>,
        s1: RqState,
        picked: Option<TaskId>,
        s2: RqState,
        s3: RqState,
        next: TaskId,
        after: RqState,
    ) -> bool {
        &&& self.fifo_pick::<K>(prev, fifo_picked, s1)
        &&& s1.fair_pick::<K>(prev, fifo_picked, picked, s2)
        &&& next == self.or_idle(picked)
        &&& s2.put_prev::<K>(self.puts_prev(prev, next), prev, s3)
        &&& s3.next_told::<K>(self.tells_next(prev, next), next, after)
    }

    /// `next` is picked to run after `prev`: by the first-in-first-out class, else by
    /// the fair class, else it is the idle task.
    pub open spec fn pick_next<K: SchedClasses>(
        self,
        prev: TaskId,
        next: TaskId,
        after: RqState,
    ) -> bool {
        exists|
            fifo_picked: Option<TaskId>,
            s1: RqState,
            picked: Option<TaskId>,
            s2: RqState,
            s3: RqState,
        | self.pick_path::<K>(prev, fifo_picked, s1, picked, s2, s3, next, after)
    }
}

impl CpuRunQueue {
    /// Prepares queue and task for an enqueue by the class.
    fn prepare_enqueue(
        &mut self,
        pm: &mut ProcessManager,
        t: TaskId,
        flags: EnqueueFlag,
        sample: ClockSample,
    )
        requires
            old(self).clock_wf(),
            old(pm)@.wf(),
            old(pm)@.has(t),
            !flags.contains(EnqueueFlag::ENQUEUE_NOCLOCK) ==> old(self).cpu == old(pm)@.cpu,
        ensures
            RqState::of(*final(self), final(pm)@) == RqState::of(
                *old(self),
                old(pm)@,
            ).before_enqueue(t, flags, sample),
            RqState::of(*old(self), old(pm)@).keeps(RqState::of(*final(self), final(pm)@)),
            RqState::of(*old(self), old(pm)@).spares_others(
                t,
                RqState::of(*final(self), final(pm)@),
            ),
    {
        let ghost before = RqState::of(*self, pm@);
        if !flags.contains(EnqueueFlag::ENQUEUE_NOCLOCK) {
            self.update_rq_clock(pm.cpu, sample);
        }
        proof {
            before.rq.lemma_spared_clocked(sample);
        }
        let p = pm.task(t);
        let stat = p.sched_info.sched_stat;
        if !flags.contains(EnqueueFlag::ENQUEUE_RESTORE) && stat.last_queued == 0 {
            let queued = SchedInfo { last_queued: self.clock, run_delay: stat.run_delay };
            let q = p.with_sched_stat(queued);
            pm.set_task(t, q);
            proof {
                p.lemma_kept_stat(queued);
                before.lemma_keeps_step(t, q, *self);
            }
        } else {
            proof {
                p.lemma_kept_self();
                before.lemma_keeps_step(t, p, *self);
            }
        }
    }

    /// Puts `t` on the queue of its class.
    pub fn enqueue_task<K: SchedClasses>(
        &mut self,
        pm: &mut ProcessManager,
        t: TaskId,
        flags: EnqueueFlag,
        sample: ClockSample,
    )
        requires
            old(self).clock_wf(),
            old(pm)@.wf(),
            old(pm)@.has(t),
            old(pm)@.task(t).sched_info.policy != SchedPolicy::RT,
            !flags.contains(EnqueueFlag::ENQUEUE_NOCLOCK) ==> old(self).cpu == old(pm)@.cpu,
        ensures
            RqState::of(*old(self), old(pm)@).before_enqueue(t, flags, sample).class_enqueue::<K>(
                old(pm)@.task(t).sched_info.policy,
                t,
                flags,
                RqState::of(*final(self), final(pm)@),
            ),
            RqState::of(*old(self), old(pm)@).keeps(RqState::of(*final(self), final(pm)@)),
            RqState::of(*old(self), old(pm)@).spares_others(
                t,
                RqState::of(*final(self), final(pm)@),
            ),
            final(pm)@.task(t).sched_info.sched_stat == RqState::of(
                *old(self),
                old(pm)@,
            ).before_enqueue(t, flags, sample).pm.task(t).sched_info.sched_stat,
            final(pm)@.task(t).sched_info.on_rq == old(pm)@.task(t).sched_info.on_rq,
    {
        self.prepare_enqueue(pm, t, flags, sample);
        let ghost mid = RqState::of(*self, pm@);
        proof {
            RqState::of(*old(self), old(pm)@).lemma_kept(mid);
        }
        match pm.tasks[t].sched_info.policy {
            SchedPolicy::CFS => K::Fair::enqueue(self, pm, t, flags),
            SchedPolicy::FIFO => K::Fifo::enqueue(self, pm, t, flags),
            _ => K::Idle::enqueue(self, pm, t, flags),
        }
        proof {
            let before = RqState::of(*old(self), old(pm)@);
            let after = RqState::of(*self, pm@);
            mid.lemma_spares_keeps(after);
            mid.lemma_spared(after, t);
            before.lemma_keeps(mid, after);
            assert(mid.spares_others(t, after));
            before.lemma_others(t, mid, after);
        }
    }

    /// Prepares queue and task for a dequeue by the class.
    fn prepare_dequeue(
        &mut self,
        pm: &mut ProcessManager,
        t: TaskId,
        flags: DequeueFlag,
        sample: ClockSample,
    )
        requires
            old(self).clock_wf(),
            old(pm)@.wf(),
            old(pm)@.has(t),
            !flags.contains(DequeueFlag::DEQUEUE_NOCLOCK) ==> old(self).cpu == old(pm)@.cpu,
        ensures
            RqState::of(*final(self), final(pm)@) == RqState::of(
                *old(self),
                old(pm)@,
            ).before_dequeue(t, flags, sample),
            RqState::of(*old(self), old(pm)@).keeps(RqState::of(*final(self), final(pm)@)),
            RqState::of(*old(self), old(pm)@).spares_others(
                t,
                RqState::of(*final(self), final(pm)@),
            ),
    {
        let ghost before = RqState::of(*self, pm@);
        if !flags.contains(DequeueFlag::DEQUEUE_NOCLOCK) {
            self.update_rq_clock(pm.cpu, sample);
        }
        proof {
            before.rq.lemma_spared_clocked(sample);
        }
        let p = pm.task(t);
        let stat = p.sched_info.sched_stat;
        if !flags.contains(DequeueFlag::DEQUEUE_SAVE) && stat.last_queued > 0 {
            let delta: u64 = self.clock.wrapping_sub(stat.last_queued);
            let waited = SchedInfo {
                last_queued: 0,
                run_delay: stat.run_delay.wrapping_add(delta),
            };
            let q = p.with_sched_stat(waited);
            pm.set_task(t, q);
            self.sched_info.run_delay = self.sched_info.run_delay.wrapping_add(delta);
            proof {
                p.lemma_kept_stat(waited);
                before.lemma_keeps_step(t, q, *self);
            }
        } else {
            proof {
                p.lemma_kept_self();
                before.lemma_keeps_step(t, p, *self);
            }
        }
    }

    /// Takes `t` off the queue of its class.
    pub fn dequeue_task<K: SchedClasses>(
        &mut self,
        pm: &mut ProcessManager,
        t: TaskId,
        flags: DequeueFlag,
        sample: ClockSample,
    )
        requires
            old(self).clock_wf(),
            old(pm)@.wf(),
            old(pm)@.has(t),
            old(pm)@.task(t).sched_info.policy != SchedPolicy::RT,
            !flags.contains(DequeueFlag::DEQUEUE_NOCLOCK) ==> old(self).cpu == old(pm)@.cpu,
        ensures
            RqState::of(*old(self), old(pm)@).before_dequeue(t, flags, sample).class_dequeue::<K>(
                old(pm)@.task(t).sched_info.policy,
                t,
                flags,
                RqState::of(*final(self), final(pm)@),
            ),
            RqState::of(*old(self), old(pm)@).keeps(RqState::of(*final(self), final(pm)@)),
            RqState::of(*old(self), old(pm)@).spares_others(
                t,
                RqState::of(*final(self), final(pm)@),
            ),
            final(pm)@.task(t).sched_info.sched_stat == RqState::of(
                *old(self),
                old(pm)@,
            ).before_dequeue(t, flags, sample).pm.task(t).sched_info.sched_stat,
            final(pm)@.task(t).sched_info.on_rq == old(pm)@.task(t).sched_info.on_rq,
            final(self).sched_info == RqState::of(*old(self), old(pm)@).before_dequeue(
                t,
                flags,
                sample,
            ).rq.sched_info,
    {
        self.prepare_dequeue(pm, t, flags, sample);
        let ghost mid = RqState::of(*self, pm@);
        proof {
            RqState::of(*old(self), old(pm)@).lemma_kept(mid);
        }
        match pm.tasks[t].sched_info.policy {
            SchedPolicy::CFS => K::Fair::dequeue(self, pm, t, flags),
            SchedPolicy::FIFO => K::Fifo::dequeue(self, pm, t, flags),
            _ => K::Idle::dequeue(self, pm, t, flags),
        }
        proof {
            let before = RqState::of(*old(self), old(pm)@);
            let after = RqState::of(*self, pm@);
            mid.lemma_spares_keeps(after);
            mid.lemma_spared(after, t);
            before.lemma_keeps(mid, after);
            assert(mid.spares_others(t, after));
            before.lemma_others(t, mid, after);
        }
    }

    /// Makes `t` a task of this queue.
    pub fn activate_task<K: SchedClasses>(
        &mut self,
        pm: &mut ProcessManager,
        t: TaskId,
        flags: EnqueueFlag,
        sample: ClockSample,
    )
        requires
            old(self).clock_wf(),
            old(pm)@.wf(),
            old(pm)@.has(t),
            old(pm)@.task(t).sched_info.policy != SchedPolicy::RT,
            !RqState::of(*old(self), old(pm)@).activate_flags(t, flags).contains(
                EnqueueFlag::ENQUEUE_NOCLOCK,
            ) ==> old(self).cpu == old(pm)@.cpu,
        ensures
            RqState::of(*old(self), old(pm)@).activate::<K>(
                t,
                flags,
                sample,
                RqState::of(*final(self), final(pm)@),
            ),
            RqState::of(*old(self), old(pm)@).keeps(RqState::of(*final(self), final(pm)@)),
            RqState::of(*old(self), old(pm)@).spares_others(
                t,
                RqState::of(*final(self), final(pm)@),
            ),
            final(pm)@.task(t).sched_info.on_rq == OnRq::Queued,
            final(pm)@.task(t).sched_info.sched_stat == RqState::of(
                *old(self),
                old(pm)@,
            ).before_enqueue(
                t,
                RqState::of(*old(self), old(pm)@).activate_flags(t, flags),
                sample,
            ).pm.task(t).sched_info.sched_stat,
    {
        let ghost before = RqState::of(*self, pm@);
        let mut f = flags;
        if pm.tasks[t].sched_info.on_rq == OnRq::Migrating {
            f = f.with(EnqueueFlag::ENQUEUE_MIGRATED);
        }
        self.enqueue_task::<K>(pm, t, f, sample);
        let ghost mid = RqState::of(*self, pm@);
        proof {
            before.lemma_kept(mid);
        }
        self.note_on_rq(pm, t, OnRq::Queued);
        proof {
            before.lemma_keeps(mid, RqState::of(*self, pm@));
            before.lemma_others(t, mid, RqState::of(*self, pm@));
            assert(before.activate_path::<K>(t, flags, sample, mid, RqState::of(*self, pm@)));
        }
    }

    /// Notes where `t` stands with respect to run queues.
    fn note_on_rq(&self, pm: &mut ProcessManager, t: TaskId, on_rq: OnRq)
        requires
            self.clock_wf(),
            old(pm)@.wf(),
            old(pm)@.has(t),
        ensures
            final(pm)@ == old(pm)@.with_task(t, old(pm)@.task(t).with_on_rq(on_rq)),
            RqState::of(*self, old(pm)@).keeps(RqState::of(*self, final(pm)@)),
            RqState::of(*self, old(pm)@).spares_others(t, RqState::of(*self, final(pm)@)),
    {
        let mut p = pm.task(t);
        p.sched_info.on_rq = on_rq;
        pm.set_task(t, p);
        proof {
            reveal(ProcessControlBlock::kept_by_queueing);
            RqState::of(*self, old(pm)@).lemma_keeps_step(t, p, *self);
        }
    }

    /// Takes `t` off this queue. A task that neither sleeps nor is stopped is on its
    /// way to another queue.
    pub fn deactivate_task<K: SchedClasses>(
        &mut self,
        pm: &mut ProcessManager,
        t: TaskId,
        flags: DequeueFlag,
        sample: ClockSample,
    )
        requires
            old(self).clock_wf(),
            old(pm)@.wf(),
            old(pm)@.has(t),
            old(pm)@.task(t).sched_info.policy != SchedPolicy::RT,
            !flags.contains(DequeueFlag::DEQUEUE_NOCLOCK) ==> old(self).cpu == old(pm)@.cpu,
        ensures
            RqState::of(*old(self), old(pm)@).deactivate::<K>(
                t,
                flags,
                sample,
                RqState::of(*final(self), final(pm)@),
            ),
            RqState::of(*old(self), old(pm)@).keeps(RqState::of(*final(self), final(pm)@)),
            RqState::of(*old(self), old(pm)@).spares_others(
                t,
                RqState::of(*final(self), final(pm)@),
            ),
            final(pm)@.task(t).sched_info.on_rq == RqState::on_rq_after(flags),
            final(pm)@.task(t).sched_info.sched_stat == RqState::of(
                *old(self),
                old(pm)@,
            ).before_dequeue(t, flags, sample).pm.task(t).sched_info.sched_stat,
            final(self).sched_info == RqState::of(*old(self), old(pm)@).before_dequeue(
                t,
                flags,
                sample,
            ).rq.sched_info,
    {
        let ghost before = RqState::of(*self, pm@);
        let on_rq = if flags.intersects(
            DequeueFlag::DEQUEUE_SLEEP | DequeueFlag::DEQUEUE_STOPPED,
        ) {
            OnRq::Unqueued
        } else {
            OnRq::Migrating
        };
        self.note_on_rq(pm, t, on_rq);
        let ghost mid = RqState::of(*self, pm@);
        proof {
            before.lemma_kept(mid);
        }
        self.dequeue_task::<K>(pm, t, flags, sample);
        proof {
            before.lemma_keeps(mid, RqState::of(*self, pm@));
            before.lemma_others(t, mid, RqState::of(*self, pm@));
        }
    }

    /// The task that runs.
    pub fn current_ref(&self, pm: &ProcessManager) -> (pcb: ProcessControlBlock)
        requires
            RqState::of(*self, pm@).has_curr(),
        ensures
            pcb == pm@.task(self.current->Some_0),
    {
        pm.task(self.current())
    }

    /// Marks the running task as one that should give up the processor, and tells
    /// whether it was marked before.
    fn mark_need_schedule(&self, pm: &mut ProcessManager) -> (already_set: bool)
        requires
            self.clock_wf(),
            old(pm)@.wf(),
            RqState::of(*self, old(pm)@).has_curr(),
        ensures
            already_set == old(pm)@.task(self.current->Some_0).flags.need_schedule,
            final(pm)@ == RqState::of(*self, old(pm)@).asked().pm,
            RqState::of(*self, old(pm)@).spares(RqState::of(*self, final(pm)@)),
    {
        let curr = self.current();
        let mut p = pm.task(curr);
        let already_set = p.flags.need_schedule;
        pm.set_flags(curr, p.flags.with_need_schedule(true));
        proof {
            reveal(ProcessControlBlock::kept_by_queueing);
            RqState::of(*self, old(pm)@).lemma_spares_step(curr, pm@.task(curr), *self);
        }
        already_set
    }

    /// Asks the running task to give up the processor. A foreign processor is
    /// interrupted for that; one whose task had been asked before is left alone,
    /// unless it is idle and has to be woken.
    pub fn resched_current(&self, pm: &mut ProcessManager)
        requires
            self.clock_wf(),
            old(pm)@.wf(),
            RqState::of(*self, old(pm)@).has_curr(),
        ensures
            RqState::of(*self, final(pm)@) == RqState::of(*self, old(pm)@).resched(),
            RqState::of(*self, old(pm)@).spares(RqState::of(*self, final(pm)@)),
    {
        let ghost before = RqState::of(*self, pm@);
        let policy = self.current_ref(pm).sched_info.policy;
        let already_set = self.mark_need_schedule(pm);
        let ghost mid = RqState::of(*self, pm@);
        proof {
            before.lemma_spared(mid, before.rq.current->Some_0);
        }
        if self.cpu != pm.cpu && !(already_set && policy != SchedPolicy::IDLE) {
            pm.act(Action::ReschedIpi(self.cpu));
            proof {
                mid.lemma_spares_action(Action::ReschedIpi(self.cpu));
                before.lemma_spares(mid, RqState::of(*self, pm@));
            }
        }
    }

    /// Lets the next clock update be skipped if the running task has to go.
    fn request_skip(&mut self, pm: &ProcessManager)
        requires
            old(self).clock_wf(),
            pm@.wf(),
            RqState::of(*old(self), pm@).has_curr(),
        ensures
            RqState::of(*final(self), pm@) == RqState::of(*old(self), pm@).skip_requested(),
            RqState::of(*old(self), pm@).spares(RqState::of(*final(self), pm@)),
    {
        let curr = self.current_ref(pm);
        if curr.sched_info.on_rq == OnRq::Queued && curr.flags.need_schedule {
            self.clock_updata_flags = self.clock_updata_flags.with(ClockUpdataFlag::RQCF_REQ_SKIP);
        }
        proof {
            let before = RqState::of(*old(self), pm@);
            curr.lemma_kept_self();
            before.lemma_spares_step(self.current->Some_0, curr, *self);
            assert(before.pm.with_task(self.current->Some_0, curr) =~= pm@);
        }
    }

    /// Looks whether `t` may preempt the running task.
    pub fn check_preempt_current<K: SchedClasses>(
        &mut self,
        pm: &mut ProcessManager,
        t: TaskId,
        flags: WakeupFlags,
    )
        requires
            old(self).clock_wf(),
            old(pm)@.wf(),
            old(pm)@.has(t),
            RqState::of(*old(self), old(pm)@).has_curr(),
            !(old(pm)@.task(t).sched_info.policy == SchedPolicy::RT && old(pm)@.task(
                old(self).current->Some_0,
            ).sched_info.policy == SchedPolicy::RT),
        ensures
            RqState::of(*old(self), old(pm)@).check_preempt::<K>(
                t,
                flags,
                RqState::of(*final(self), final(pm)@),
            ),
            RqState::of(*old(self), old(pm)@).spares(RqState::of(*final(self), final(pm)@)),
    {
        let ghost before = RqState::of(*self, pm@);
        self.decide_preempt::<K>(pm, t, flags);
        let ghost mid = RqState::of(*self, pm@);
        proof {
            before.lemma_spared(mid, before.rq.current->Some_0);
        }
        self.request_skip(pm);
        proof {
            let after = RqState::of(*self, pm@);
            before.lemma_spares(mid, after);
            assert(before.check_preempt_path::<K>(t, flags, mid, after));
        }
    }

    /// Compares `t` with the running task.
    fn decide_preempt<K: SchedClasses>(
        &mut self,
        pm: &mut ProcessManager,
        t: TaskId,
        flags: WakeupFlags,
    )
        requires
            old(self).clock_wf(),
            old(pm)@.wf(),
            old(pm)@.has(t),
            RqState::of(*old(self), old(pm)@).has_curr(),
            !(old(pm)@.task(t).sched_info.policy == SchedPolicy::RT && old(pm)@.task(
                old(self).current->Some_0,
            ).sched_info.policy == SchedPolicy::RT),
        ensures
            RqState::of(*old(self), old(pm)@).preempt_decision::<K>(
                t,
                flags,
                RqState::of(*final(self), final(pm)@),
            ),
            RqState::of(*old(self), old(pm)@).spares(RqState::of(*final(self), final(pm)@)),
            !(old(pm)@.task(t).sched_info.policy == SchedPolicy::CFS && old(pm)@.task(
                old(self).current->Some_0,
            ).sched_info.policy == SchedPolicy::CFS) ==> RqState::of(
                *old(self),
                old(pm)@,
            ).same_clock(RqState::of(*final(self), final(pm)@)),
    {
        let policy = pm.task(t).sched_info.policy;
        let curr_policy = self.current_ref(pm).sched_info.policy;
        if policy == curr_policy {
            match curr_policy {
                SchedPolicy::CFS => K::Fair::check_preempt_current(self, pm, t, flags),
                SchedPolicy::FIFO => K::Fifo::check_preempt_current(self, pm, t, flags),
                _ => K::Idle::check_preempt_current(self, pm, t, flags),
            }
        } else if policy.outranks(curr_policy) {
            self.resched_current(pm);
        } else {
            proof {
                RqState::of(*self, pm@).lemma_spares_self();
            }
        }
    }

    /// Looks whether `t` may preempt the running task of a foreign processor, whose
    /// clock must not be updated from here: a higher class does, and the classes
    /// decide among their own tasks, but for the fair one.
    pub fn check_preempt_remote<K: SchedClasses>(
        &mut self,
        pm: &mut ProcessManager,
        t: TaskId,
        flags: WakeupFlags,
    )
        requires
            old(self).clock_wf(),
            old(pm)@.wf(),
            old(pm)@.has(t),
            RqState::of(*old(self), old(pm)@).has_curr(),
            old(pm)@.task(old(self).current->Some_0).flags.need_schedule || !(old(pm)@.task(
                t,
            ).sched_info.policy == SchedPolicy::RT && old(pm)@.task(
                old(self).current->Some_0,
            ).sched_info.policy == SchedPolicy::RT),
        ensures
            RqState::of(*old(self), old(pm)@).check_remote::<K>(
                t,
                flags,
                RqState::of(*final(self), final(pm)@),
            ),
            RqState::of(*old(self), old(pm)@).spares(RqState::of(*final(self), final(pm)@)),
            RqState::of(*old(self), old(pm)@).same_clock(RqState::of(*final(self), final(pm)@)),
    {
        let ghost before = RqState::of(*self, pm@);
        let curr = self.current_ref(pm);
        let next_policy = pm.task(t).sched_info.policy;
        if curr.flags.need_schedule {
            if curr.sched_info.policy == SchedPolicy::IDLE {
                self.resched_current(pm);
            } else {
                proof {
                    before.lemma_spares_self();
                }
            }
            return;
        }
        if next_policy == SchedPolicy::CFS && curr.sched_info.policy == SchedPolicy::CFS {
            proof {
                before.lemma_spares_self();
            }
        } else {
            self.decide_preempt::<K>(pm, t, flags);
        }
        let ghost mid = RqState::of(*self, pm@);
        proof {
            before.lemma_spared(mid, before.rq.current->Some_0);
        }
        self.request_skip(pm);
        proof {
            let after = RqState::of(*self, pm@);
            before.lemma_spares(mid, after);
            assert(before.check_remote_path::<K>(t, flags, mid, after));
        }
    }

    /// Has the classes pick a task.
    fn pick_by_class<K: SchedClasses>(
        &mut self,
        pm: &mut ProcessManager,
        prev: TaskId,
    ) -> (res: (Option<TaskId>, Option<TaskId>, Ghost<RqState>))
        requires
            old(self).clock_wf(),
            old(pm)@.wf(),
            old(pm)@.has(prev),
        ensures
            RqState::of(*old(self), old(pm)@).fifo_pick::<K>(prev, res.0, res.2@),
            res.2@.fair_pick::<K>(prev, res.0, res.1, RqState::of(*final(self), final(pm)@)),
            RqState::of(*old(self), old(pm)@).spares(RqState::of(*final(self), final(pm)@)),
            res.1 is Some ==> final(pm)@.has(res.1->Some_0),
    {
        let ghost before = RqState::of(*self, pm@);
        proof {
            before.lemma_spares_self();
        }
        let mut fifo_picked: Option<TaskId> = None;
        if self.fifo.nr_running > 0 {
            fifo_picked = K::Fifo::pick_next_task(self, pm, Some(prev));
        }
        let ghost s1 = RqState::of(*self, pm@);
        proof {
            before.lemma_spared(s1, prev);
            s1.lemma_spares_self();
        }
        let mut picked = fifo_picked;
        if picked.is_none() {
            picked = K::Fair::pick_next_task(self, pm, Some(prev));
        }
        proof {
            let s2 = RqState::of(*self, pm@);
            before.lemma_spares(s1, s2);
            s1.lemma_spared(s2, prev);
        }
        (fifo_picked, picked, Ghost(s1))
    }

    /// Has the class of `prev` take it off the processor.
    fn put_prev_of_class<K: SchedClasses>(&mut self, pm: &mut ProcessManager, prev: TaskId)
        requires
            old(self).clock_wf(),
            old(pm)@.wf(),
            old(pm)@.has(prev),
            old(pm)@.task(prev).sched_info.policy != SchedPolicy::RT,
        ensures
            RqState::of(*old(self), old(pm)@).class_put_prev::<K>(
                old(pm)@.task(prev).sched_info.policy,
                prev,
                RqState::of(*final(self), final(pm)@),
            ),
    {
        match pm.task(prev).sched_info.policy {
            SchedPolicy::FIFO => K::Fifo::put_prev_task(self, pm, prev),
            SchedPolicy::CFS => K::Fair::put_prev_task(self, pm, prev),
            _ => K::Idle::put_prev_task(self, pm, prev),
        }
    }

    /// Picks the task that runs after `prev`.
    pub fn pick_next_task<K: SchedClasses>(
        &mut self,
        pm: &mut ProcessManager,
        prev: TaskId,
    ) -> (next: TaskId)
        requires
            old(self).clock_wf(),
            old(pm)@.wf(),
            old(pm)@.has(prev),
            old(pm)@.task(prev).sched_info.policy != SchedPolicy::RT,
            old(pm)@.task(prev).sched_info.on_cpu is Some ==> old(pm)@.task(
                prev,
            ).sched_info.on_cpu == Some(old(self).cpu),
            old(pm)@.upgrade(old(self).idle) is Some,
        ensures
            RqState::of(*old(self), old(pm)@).pick_next::<K>(
                prev,
                next,
                RqState::of(*final(self), final(pm)@),
            ),
            RqState::of(*old(self), old(pm)@).spares(RqState::of(*final(self), final(pm)@)),
            final(pm)@.has(next),
    {
        let ghost before = RqState::of(*self, pm@);
        let (fifo_picked, picked, Ghost(s1)) = self.pick_by_class::<K>(pm, prev);
        let ghost s2 = RqState::of(*self, pm@);
        proof {
            before.lemma_spared(s2, prev);
            before.lemma_spared(s2, before.rq.idle->Some_0);
        }
        let next = match picked {
            Some(t) => t,
            None => pm.upgrade(self.idle).unwrap(),
        };
        if prev != next && pm.task(prev).sched_info.on_cpu == Some(self.cpu) {
            self.put_prev_of_class::<K>(pm, prev);
        } else {
            proof {
                s2.lemma_spares_self();
            }
        }
        let ghost s3 = RqState::of(*self, pm@);
        proof {
            before.lemma_spares(s2, s3);
            before.lemma_spared(s3, next);
        }
        if prev != next && pm.task(next).sched_info.policy == SchedPolicy::CFS {
            K::Fair::set_next_task(self, pm, next);
        } else {
            proof {
                s3.lemma_spares_self();
            }
        }
        proof {
            let after = RqState::of(*self, pm@);
            before.lemma_spares(s3, after);
            before.lemma_spared(after, next);
            assert(before.pick_path::<K>(prev, fifo_picked, s1, picked, s2, s3, next, after));
        }
        next
    }
}

} // verus!
