//! The tick of the timer, and giving way.
use crate::libs::spinlock::{IrqFlagsGuard, SpinLockGuard};
use crate::process::action::{Action, CpuIdleType};
use crate::process::manager::{ProcessManager, ProcessManagerView};
use crate::process::pcb::TaskId;
use crate::process::preempt::PreemptGuard;
use crate::sched::flags::SchedMode;
use crate::sched::percpu::{SchedCore, SchedCoreView, cpu_rq};
use crate::sched::policy::SchedPolicy;
use crate::sched::rq::{ClockSample, CpuRunQueue};
use crate::sched::schedule::{schedule, PassState};
use crate::sched::scheduler::{RqState, SchedClasses, Scheduler};
use crate::sched::wake::WakeState;
use crate::smp::cpu::{ProcessorId, MAX_CPU_NUM};
use vstd::prelude::*;

verus! {

impl CpuRunQueue {
    /// Whether it is time to balance this processor, and why it is balanced then.
    pub open spec fn balance_due(
        self,
        jiffies: u64,
        should_balance: bool,
    ) -> Option<(ProcessorId, CpuIdleType)> {
        if self.sched_domain is Some && jiffies >= self.next_balance && should_balance {
            Some(
                (
                    self.cpu,
                    if self.nr_running == 0 {
                        CpuIdleType::Idle
                    } else {
                        CpuIdleType::NotIdle
                    },
                ),
            )
        } else {
            None
        }
    }
}

/// Tells whether the domains of a processor have to be balanced: it has some, the
/// time has come, and the balancer thinks that it should.
pub fn trigger_load_balance(rq: &CpuRunQueue, jiffies: u64, should_balance: bool) -> (due: Option<
    (ProcessorId, CpuIdleType),
>)
    ensures
        due == rq.balance_due(jiffies, should_balance),
{
    if rq.sched_domain().is_none() {
        return None;
    }
    if jiffies < rq.next_balance {
        return None;
    }
    if !should_balance {
        return None;
    }
    let idle_type = if rq.nr_running_lockless() == 0 {
        CpuIdleType::Idle
    } else {
        CpuIdleType::NotIdle
    };
    Some((rq.cpu(), idle_type))
}

/// The queue and the tasks as the class takes its tick.
pub open spec fn tick_entry(
    sched: SchedCoreView,
    pm: ProcessManagerView,
    sample: ClockSample,
) -> RqState {
    RqState {
        rq: sched.rq(pm.cpu).with_lock(true).clocked(sample),
        pm: pm.irq_off().preempt_disabled(),
    }
}

/// A tick: the class of the running task takes it on the way to `ticked`, the tasks
/// are folded into the load, and the wake queue is emptied on the way to `last`.
pub open spec fn tick_path<K: SchedClasses>(
    sched: SchedCoreView,
    pm: ProcessManagerView,
    sample: ClockSample,
    ticked: RqState,
    last: WakeState,
    rq: CpuRunQueue,
) -> bool {
    let entry = tick_entry(sched, pm, sample);
    &&& entry.class_tick::<K>(entry.policy(entry.curr()), entry.curr(), ticked)
    &&& crate::sched::wake::drain_path::<K>(
        ticked.rq,
        sched,
        ticked.pm.with_action(ticked.rq.load_tick()),
        last,
        rq,
    )
}

/// What follows a tick: the lock is given back, and balancing is left to a work queue
/// if it is due.
pub open spec fn tick_done(
    pm: ProcessManagerView,
    guard: SpinLockGuard,
    due: Option<(ProcessorId, CpuIdleType)>,
) -> ProcessManagerView {
    let unlocked = pm.unlocked(guard);
    match due {
        Some((cpu, idle)) => unlocked.with_action(Action::RebalanceDomains { cpu, idle }),
        None => unlocked,
    }
}

/// Whether the timer can tick on the processor at work: its queue is free and has a
/// running task, and tasks without a real-time policy only.
pub open spec fn can_tick(sched: SchedCoreView, pm: ProcessManagerView) -> bool {
    let rq = sched.rq(pm.cpu);
    &&& sched.wf()
    &&& pm.wf()
    &&& pm.cpu.id < MAX_CPU_NUM
    &&& RqState::of(rq, pm).has_curr()
    &&& !rq.lock.locked
    &&& pm.task(rq.current->Some_0).sched_info.policy != SchedPolicy::RT
    &&& forall|i: int|
        0 <= i < sched.wakequeue(pm.cpu).len() ==> WakeState::of(rq, sched, pm, false).wakeable(
            #[trigger] sched.wakequeue(pm.cpu)[i],
        )
}

/// Has the class of the running task take a tick.
fn tick_of_class<K: SchedClasses>(rq: &mut CpuRunQueue, pm: &mut ProcessManager)
    requires
        RqState::of(*old(rq), old(pm)@).wf(),
        RqState::of(*old(rq), old(pm)@).has_curr(),
        old(pm)@.task(old(rq).current->Some_0).sched_info.policy != SchedPolicy::RT,
    ensures
        RqState::of(*old(rq), old(pm)@).class_tick::<K>(
            old(pm)@.task(old(rq).current->Some_0).sched_info.policy,
            old(rq).current->Some_0,
            RqState::of(*final(rq), final(pm)@),
        ),
        RqState::of(*old(rq), old(pm)@).spares(RqState::of(*final(rq), final(pm)@)),
{
    let current = rq.current();
    match pm.task(current).sched_info.policy {
        SchedPolicy::CFS => K::Fair::tick(rq, pm, current, false),
        SchedPolicy::FIFO => K::Fifo::tick(rq, pm, current, false),
        _ => K::Idle::tick(rq, pm, current, false),
    }
}

/// Takes a tick of the timer on the processor at work. `should_balance` is what the
/// balancer thinks of its queue, and `jiffies` is the time in ticks.
pub fn scheduler_tick<K: SchedClasses>(
    sched: &mut SchedCore,
    pm: &mut ProcessManager,
    sample: ClockSample,
    jiffies: u64,
    should_balance: bool,
)
    requires
        can_tick(old(sched)@, old(pm)@),
    ensures
        exists|ticked: RqState, last: WakeState, rq: CpuRunQueue|
            #[trigger] tick_path::<K>(old(sched)@, old(pm)@, sample, ticked, last, rq)
                && final(sched)@ == last.sched.with_rq(old(pm)@.cpu, rq.with_lock(false))
                && final(pm)@ == tick_done(
                last.pm,
                (SpinLockGuard {
                    irq_flag: Some(IrqFlagsGuard { was_enabled: old(pm)@.irq_enabled }),
                }),
                rq.balance_due(jiffies, should_balance),
            ),
        !final(sched)@.rq(old(pm)@.cpu).lock.locked,
        final(sched)@.wf(),
        final(pm)@.wf(),
{
    let ghost sched0 = sched@;
    let ghost pm0 = pm@;
    let cpu = pm.cpu;
    let mut rq = cpu_rq(sched, cpu.data() as usize);
    let guard = rq.self_lock(pm);
    rq.update_rq_clock(pm.cpu, sample);
    let ghost entry = RqState::of(rq, pm@);
    tick_of_class::<K>(&mut rq, pm);
    let ghost ticked = RqState::of(rq, pm@);
    proof {
        entry.lemma_spared(ticked, entry.curr());
    }
    rq.calculate_global_load_tick(pm);
    let ghost folded = RqState::of(rq, pm@);
    proof {
        assert forall|i: int| 0 <= i < sched0.wakequeue(cpu).len() implies WakeState::of(
            rq,
            sched0,
            pm@,
            false,
        ).wakeable(#[trigger] sched0.wakequeue(cpu)[i]) by {
            let t = sched0.wakequeue(cpu)[i];
            assert(WakeState::of(sched0.rq(cpu), sched0, pm0, false).wakeable(t));
            entry.lemma_spared(ticked, t);
        }
    }
    rq.drain_wake_queue::<K>(sched, pm);
    let ghost drained = RqState::of(rq, pm@);
    let ghost last = choose|last: WakeState|
        #[trigger] crate::sched::wake::drain_path::<K>(
            folded.rq,
            sched0,
            folded.pm,
            last,
            rq,
        ) && sched@ == last.sched && pm@ == last.pm;
    proof {
        folded.lemma_stayed(drained);
        assert(tick_path::<K>(sched0, pm0, sample, ticked, last, rq));
    }
    let due = trigger_load_balance(&rq, jiffies, should_balance);
    let ghost rq_done = rq;
    rq.self_unlock(guard, pm);
    if let Some((cpu, idle)) = due {
        pm.act(Action::RebalanceDomains { cpu, idle });
    }
    proof {
        sched@.lemma_with_rq(cpu, rq);
        assert(tick_path::<K>(sched0, pm0, sample, ticked, last, rq_done));
    }
    sched.set_rq(cpu, rq);
}

impl ProcessManager {
    /// Charges a tick to the running task, then has the scheduler take it.
    pub fn update_process_times<K: SchedClasses>(
        &mut self,
        sched: &mut SchedCore,
        user_tick: bool,
        sample: ClockSample,
        jiffies: u64,
        should_balance: bool,
    )
        requires
            can_tick(old(sched)@, old(self)@),
        ensures
            exists|ticked: RqState, last: WakeState, rq: CpuRunQueue|
                #[trigger] tick_path::<K>(
                    old(sched)@,
                    old(self)@.with_action(
                        Action::AccountTick { task: old(self)@.current, user_tick },
                    ),
                    sample,
                    ticked,
                    last,
                    rq,
                ) && final(sched)@ == last.sched.with_rq(old(self)@.cpu, rq.with_lock(false))
                    && final(self)@ == tick_done(
                    last.pm,
                    (SpinLockGuard {
                        irq_flag: Some(IrqFlagsGuard { was_enabled: old(self)@.irq_enabled }),
                    }),
                    rq.balance_due(jiffies, should_balance),
                ),
            !final(sched)@.rq(old(self)@.cpu).lock.locked,
            final(sched)@.wf(),
            final(self)@.wf(),
    {
        let task = self.current;
        self.act(Action::AccountTick { task, user_tick });
        proof {
            let pm0 = old(self)@;
            let cpu = pm0.cpu;
            assert forall|i: int| 0 <= i < sched@.wakequeue(cpu).len() implies WakeState::of(
                sched@.rq(cpu),
                sched@,
                self@,
                false,
            ).wakeable(#[trigger] sched@.wakequeue(cpu)[i]) by {
                assert(WakeState::of(sched@.rq(cpu), sched@, pm0, false).wakeable(
                    sched@.wakequeue(cpu)[i],
                ));
            }
        }
        scheduler_tick::<K>(sched, self, sample, jiffies, should_balance);
    }
}

/// The queue and the tasks as the running task gives way.
pub open spec fn yield_entry(sched: SchedCoreView, pm: ProcessManagerView) -> RqState {
    RqState {
        rq: sched.rq(pm.cpu).with_lock(true),
        pm: pm.irq_off().preempt_disabled(),
    }
}

impl RqState {
    /// The running task gives way as its class has it.
    pub open spec fn class_yield<K: SchedClasses>(
        self,
        policy: SchedPolicy,
        after: RqState,
    ) -> bool {
        match policy {
            SchedPolicy::CFS => self.spares(after) && K::Fair::yield_task_rel(self, after),
            SchedPolicy::FIFO => self.spares(after) && K::Fifo::yield_task_rel(self, after),
            SchedPolicy::RT => after == self.resched(),
            SchedPolicy::IDLE => after == self,
        }
    }
}

/// The tasks once the lock of the queue is given back after `yielded`, and interrupts
/// and preemption are as they were before.
pub open spec fn yield_released(
    yielded: ProcessManagerView,
    irq_was_enabled: bool,
) -> ProcessManagerView {
    let unlocked = yielded.preempt_disabled().unlocked(
        SpinLockGuard { irq_flag: Some(IrqFlagsGuard { was_enabled: false }) },
    );
    (ProcessManagerView { irq_enabled: irq_was_enabled, ..unlocked }).preempt_enabled()
}

/// Has the class of the running task give way.
fn yield_of_class<K: SchedClasses>(rq: &mut CpuRunQueue, pm: &mut ProcessManager)
    requires
        RqState::of(*old(rq), old(pm)@).wf(),
        RqState::of(*old(rq), old(pm)@).has_curr(),
    ensures
        RqState::of(*old(rq), old(pm)@).class_yield::<K>(
            old(pm)@.task(old(pm)@.current).sched_info.policy,
            RqState::of(*final(rq), final(pm)@),
        ),
        RqState::of(*old(rq), old(pm)@).spares(RqState::of(*final(rq), final(pm)@)),
{
    match pm.task(pm.current).sched_info.policy {
        SchedPolicy::CFS => K::Fair::yield_task(rq, pm),
        SchedPolicy::FIFO => K::Fifo::yield_task(rq, pm),
        SchedPolicy::RT => rq.resched_current(pm),
        SchedPolicy::IDLE => {
            proof {
                RqState::of(*rq, pm@).lemma_spares_self();
            }
        },
    }
}

/// Has the running task give way to others of its class, up to where the processor is
/// given up.
fn give_way<K: SchedClasses>(sched: &mut SchedCore, pm: &mut ProcessManager) -> (yielded: Ghost<
    RqState,
>)
    requires
        crate::sched::schedule::can_schedule(old(sched)@, old(pm)@),
    ensures
        yield_entry(old(sched)@, old(pm)@).class_yield::<K>(
            old(pm)@.task(old(pm)@.current).sched_info.policy,
            yielded@,
        ),
        final(sched)@ == old(sched)@.with_rq(old(pm)@.cpu, yielded@.rq.with_lock(false)),
        final(pm)@ == yield_released(yielded@.pm, old(pm)@.irq_enabled),
        crate::sched::schedule::can_schedule(final(sched)@, final(pm)@),
        final(pm)@.cpu == old(pm)@.cpu,
        final(pm)@.current == old(pm)@.current,
        final(sched)@.rq(old(pm)@.cpu).current == old(sched)@.rq(old(pm)@.cpu).current,
        old(pm)@.count() < usize::MAX - 1 ==> final(pm)@.preempt_count == old(pm)@.preempt_count,
{
    let ghost sched0 = sched@;
    let ghost pm0 = pm@;
    let irq_guard = pm.save_and_disable_irq();
    let cpu = pm.cpu;
    let mut rq = cpu_rq(sched, cpu.data() as usize);
    let guard = rq.self_lock(pm);
    let ghost entry = RqState::of(rq, pm@);
    assert(entry == yield_entry(sched0, pm0));
    yield_of_class::<K>(&mut rq, pm);
    let ghost yielded = RqState::of(rq, pm@);
    proof {
        entry.lemma_spared(yielded, entry.curr());
        entry.lemma_spared(yielded, pm0.upgrade(entry.rq.idle)->Some_0);
    }
    let preempt_guard = PreemptGuard::new(pm);
    rq.self_unlock(guard, pm);
    pm.restore_irq(Some(irq_guard));
    preempt_guard.release(pm);
    proof {
        sched0.lemma_with_rq(cpu, rq);
        if pm0.count() < usize::MAX - 1 {
            assert(pm@.preempt_count =~= pm0.preempt_count);
        }
    }
    sched.set_rq(cpu, rq);
    Ghost(yielded)
}

/// Has the running task give way to others of its class, and gives up the processor.
/// If the result is true, the switch has to be made, and `schedule_back` goes on when the
/// task is back.
pub fn sched_yield<K: SchedClasses>(
    sched: &mut SchedCore,
    pm: &mut ProcessManager,
    sample: ClockSample,
) -> (switched: bool)
    requires
        crate::sched::schedule::can_schedule(old(sched)@, old(pm)@),
    ensures
        exists|yielded: RqState, next: TaskId, after: PassState|
            #![trigger crate::sched::schedule::schedule_once::<K>(
                old(sched)@.with_rq(old(pm)@.cpu, yielded.rq.with_lock(false)),
                yield_released(yielded.pm, old(pm)@.irq_enabled),
                (SchedMode { bits: SchedMode::SM_NONE }),
                sample,
                switched,
                next,
                after,
                final(sched)@,
                final(pm)@,
            )]
            yield_entry(old(sched)@, old(pm)@).class_yield::<K>(
                old(pm)@.task(old(pm)@.current).sched_info.policy,
                yielded,
            ) && crate::sched::schedule::schedule_once::<K>(
                old(sched)@.with_rq(old(pm)@.cpu, yielded.rq.with_lock(false)),
                yield_released(yielded.pm, old(pm)@.irq_enabled),
                (SchedMode { bits: SchedMode::SM_NONE }),
                sample,
                switched,
                next,
                after,
                final(sched)@,
                final(pm)@,
            ),
        !switched ==> final(sched)@.rq(old(pm)@.cpu).current == old(sched)@.rq(
            old(pm)@.cpu,
        ).current && !final(sched)@.rq(old(pm)@.cpu).lock.locked,
        !switched && old(sched)@.rq(old(pm)@.cpu).current == Some(old(pm)@.current)
            ==> !final(pm)@.task(final(pm)@.current).flags.need_schedule,
        !switched && old(pm)@.count() < usize::MAX - 1 ==> final(pm)@.preempt_count
            == old(pm)@.preempt_count,
        final(sched)@.wf(),
        final(pm)@.wf(),
        final(pm)@.cpu == old(pm)@.cpu,
        final(pm)@.current == old(pm)@.current,
{
    let Ghost(yielded) = give_way::<K>(sched, pm);
    schedule::<K>(sched, pm, SchedMode { bits: SchedMode::SM_NONE }, sample)
}

} // verus!
