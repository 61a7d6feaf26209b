//! What a pass of the scheduler comes to for the task that ran before it.
use crate::process::action::Action;
use crate::process::manager::ProcessManagerView;
use crate::process::pcb::{ProcessControlBlock, TaskId};
use crate::sched::entity::ProcessState;
use crate::sched::flags::{DequeueFlag, SchedMode};
use crate::sched::percpu::SchedCoreView;
use crate::sched::policy::{OnRq, SchedPolicy};
use crate::sched::rq::ClockSample;
use crate::sched::schedule::{PassState, DEQUEUE_TO_MOVE, DEQUEUE_TO_SLEEP};
use crate::sched::scheduler::{RqState, SchedClasses, Scheduler};
use crate::smp::cpu::ProcessorId;
use vstd::prelude::*;

verus! {

/// What the flags of a dequeue mean: a sleep takes a task off all queues, a move takes it on
/// the way to another one, and neither asks for the clock to be read.
proof fn lemma_dequeue_flags()
    ensures
        RqState::on_rq_after(DequeueFlag { bits: DEQUEUE_TO_SLEEP }) == OnRq::Unqueued,
        RqState::on_rq_after(DequeueFlag { bits: DEQUEUE_TO_MOVE }) == OnRq::Migrating,
        (DequeueFlag { bits: DEQUEUE_TO_SLEEP }).contains(DequeueFlag::DEQUEUE_NOCLOCK),
        (DequeueFlag { bits: DEQUEUE_TO_MOVE }).contains(DequeueFlag::DEQUEUE_NOCLOCK),
{
    crate::sched::flags::lemma_flag_words();
}

/// A task that is taken off its queue stands where it should, and stays the same but for that
/// and for how long it has waited.
proof fn lemma_off<K: SchedClasses>(state: RqState, t: TaskId, flags: DequeueFlag, after: RqState)
    requires
        state.wf(),
        state.pm.has(t),
        flags.contains(DequeueFlag::DEQUEUE_NOCLOCK),
        state.deactivate::<K>(t, flags, ClockSample::unread(), after),
    ensures
        after.wf(),
        after.pm.task(t).sched_info.on_rq == RqState::on_rq_after(flags),
        state.pm.task(t).kept_by_queueing(after.pm.task(t)),
        state.rq.kept_by_queueing(after.rq),
        state.pm.kept_by_queueing(after.pm),
        state.spares_others(t, after),
{
    let p = state.pm.task(t);
    let p1 = p.with_on_rq(RqState::on_rq_after(flags));
    let off = state.with_task(t, p1);
    let ready = off.before_dequeue(t, flags, ClockSample::unread());
    let p2 = ready.pm.task(t);
    assert(p.kept_by_queueing(p1)) by {
        reveal(ProcessControlBlock::kept_by_queueing);
    }
    p1.lemma_kept_self();
    if p2 != p1 {
        p1.lemma_kept_stat(p2.sched_info.sched_stat);
        assert(p2 == p1.with_sched_stat(p2.sched_info.sched_stat));
    }
    ready.lemma_spared(after, t);
    ready.lemma_spares_keeps(after);
    p.lemma_kept_on(p1, p2);
    p.lemma_kept_on(p2, after.pm.task(t));
    state.lemma_others_same(t, p2, ready.rq);
    if p2 == p1 {
        assert(ready.pm == state.pm.with_task(t, p2));
    } else {
        assert(ready.pm.tasks =~= state.pm.with_task(t, p2).tasks);
    }
    assert(ready == (RqState { rq: ready.rq, pm: state.pm.with_task(t, p2) }));
    assert(ready.spares_others(t, after));
    state.lemma_others(t, ready, after);
}

/// A task that leaves its queue to sleep is on none.
proof fn lemma_left<K: SchedClasses>(state: RqState, t: TaskId, after: RqState)
    requires
        state.wf(),
        state.pm.has(t),
        state.leave::<K>(t, after),
    ensures
        after.wf(),
        after.pm.task(t).sched_info.on_rq == if state.pm.task(t).sched_info.on_rq == OnRq::Queued {
            OnRq::Unqueued
        } else {
            state.pm.task(t).sched_info.on_rq
        },
        state.pm.task(t).kept_by_queueing(after.pm.task(t)),
        state.rq.kept_by_queueing(after.rq),
        state.pm.kept_by_queueing(after.pm),
        state.spares_others(t, after),
{
    if state.pm.task(t).sched_info.on_rq == OnRq::Queued {
        lemma_dequeue_flags();
        lemma_off::<K>(state, t, DequeueFlag { bits: DEQUEUE_TO_SLEEP }, after);
    } else {
        state.pm.task(t).lemma_kept_self();
        state.pm.lemma_kept_self();
        state.lemma_spares_self();
        state.lemma_spares_keeps(state);
        assert(state.spares_others(t, state));
    }
}

/// Picking a task changes no more than the scheduling classes may.
proof fn lemma_picked<K: SchedClasses>(state: RqState, prev: TaskId, next: TaskId, after: RqState)
    requires
        state.wf(),
        state.pick_next::<K>(prev, next, after),
    ensures
        state.spares(after),
{
    let (fifo_picked, s1, picked, s2, s3) = choose|
        fifo_picked: Option<TaskId>,
        s1: RqState,
        picked: Option<TaskId>,
        s2: RqState,
        s3: RqState,
    | state.pick_path::<K>(prev, fifo_picked, s1, picked, s2, s3, next, after);
    state.lemma_spares_self();
    assert(state.spares(s1));
    assert(s1.wf()) by {
        reveal(RqState::spares);
    }
    s1.lemma_spares_self();
    assert(s1.spares(s2));
    state.lemma_spares(s1, s2);
    assert(s2.wf()) by {
        reveal(RqState::spares);
    }
    s2.lemma_spares_self();
    assert(s2.spares(s3));
    state.lemma_spares(s2, s3);
    assert(s3.wf()) by {
        reveal(RqState::spares);
    }
    s3.lemma_spares_self();
    assert(s3.spares(after));
    state.lemma_spares(s3, after);
}

/// The steps of a pass of the scheduler.
proof fn lemma_steps<K: SchedClasses>(
    sched: SchedCoreView,
    pm: ProcessManagerView,
    sched_mod: SchedMode,
    sample: ClockSample,
    next: TaskId,
    after: PassState,
) -> (steps: (PassState, RqState, RqState))
    requires
        crate::sched::schedule::can_schedule(sched, pm),
        crate::sched::schedule::schedule_rel::<K>(sched, pm, sched_mod, sample, next, after),
    ensures
        ({
            let prev = sched.rq(pm.cpu).current->Some_0;
            let start = PassState::entry(sched, pm, sample);
            let (moved, blocked, picked) = steps;
            &&& start.decide_path::<K>(prev, sched_mod, moved, blocked, next, picked)
            &&& after == PassState::of(picked.rq, moved.sched, picked.pm).committed(
                prev,
                next,
                start.gives_up(prev, sched_mod) && pm.task(prev).is_leaving(),
                pm.irq_enabled,
            )
            &&& start.here().wf()
            &&& start.pm.tasks == pm.tasks
            &&& pm.has(next)
            &&& start.rq.nr_uninterruptible == sched.rq(pm.cpu).nr_uninterruptible
            &&& start.rq.nr_iowait == sched.rq(pm.cpu).nr_iowait
            &&& start.rq.cpu == sched.rq(pm.cpu).cpu
            &&& start.rq.current == sched.rq(pm.cpu).current
            &&& start.rq.idle == sched.rq(pm.cpu).idle
            &&& start.rq.lock.locked
        }),
{
    let prev = sched.rq(pm.cpu).current->Some_0;
    let start = PassState::entry(sched, pm, sample);
    let end = choose|end: PassState|
        crate::sched::schedule::schedule_path::<K>(sched, pm, sched_mod, sample, next, end, after);
    let steps = choose|moved: PassState, blocked: RqState, picked: RqState|
        start.decide_path::<K>(prev, sched_mod, moved, blocked, next, picked) && end
            == PassState::of(picked.rq, moved.sched, picked.pm);
    let rq = sched.rq(pm.cpu);
    assert(rq.clock_wf());
    let promoted = crate::sched::rq::CpuRunQueue {
        clock_updata_flags: rq.clock_updata_flags.promoted(),
        ..rq.with_lock(true)
    };
    promoted.lemma_spared_clocked(sample);
    steps
}

/// What the switch at the end of a pass changes of the task that ran before: it need not give
/// up the processor any more, and if it has lost it that is counted.
#[verifier::rlimit(40)]
proof fn lemma_committed(
    end: PassState,
    prev: TaskId,
    next: TaskId,
    voluntary: bool,
    irq_was_enabled: bool,
)
    requires
        end.pm.has(prev),
        end.pm.has(next),
    ensures
        ({
            let p = end.pm.task(prev);
            let after = end.committed(prev, next, voluntary, irq_was_enabled);
            let q = after.pm.task(prev);
            &&& q.flags == p.flags.with_need_schedule(false)
            &&& q.sched_info == p.sched_info
            &&& after.rq.nr_uninterruptible == end.rq.nr_uninterruptible
            &&& after.rq.nr_iowait == end.rq.nr_iowait
            &&& q.nvcsw == if prev != next && voluntary {
                p.nvcsw.wrapping_add(1)
            } else {
                p.nvcsw
            }
            &&& q.nivcsw == if prev != next && !voluntary {
                p.nivcsw.wrapping_add(1)
            } else {
                p.nivcsw
            }
        }),
{
    let p = end.pm.task(prev);
    if prev != next {
        let q = p.with_flags(p.flags.with_need_schedule(false)).counting_switch(voluntary);
        let after = end.switched(prev, next, voluntary);
        assert(after.pm.tasks[prev as int] == q);
    } else {
        let q = p.with_flags(p.flags.with_need_schedule(false));
        let after = end.resumed(prev, irq_was_enabled);
        assert(after.pm.tasks[prev as int] == q);
    }
}

/// A task that is stopped is on no queue after a pass of the scheduler that it entered to give
/// up the processor, whether or not it was marked to sleep: only a `SIGKILL` that waits for it
/// keeps it running. It counts neither as load nor as a sleeper that waits for input.
pub proof fn law_stopped_task_leaves_its_queue<K: SchedClasses>(
    sched: SchedCoreView,
    pm: ProcessManagerView,
    sched_mod: SchedMode,
    sample: ClockSample,
    next: TaskId,
    after: PassState,
    prev: TaskId,
)
    requires
        crate::sched::schedule::can_schedule(sched, pm),
        sched.rq(pm.cpu).current == Some(prev),
        sched_mod.bits & 1 == 0,
        pm.task(prev).sched_info.policy != SchedPolicy::IDLE,
        !pm.task(prev).flags.need_migrate || pm.task(prev).sched_info.migrate_to is None,
        pm.task(prev).sched_info.state == ProcessState::Stopped,
        !pm.task(prev).has_pending_signal || (pm.task(prev).sig_pending.bits >> 8u64) & 1 == 0,
        crate::sched::schedule::schedule_rel::<K>(sched, pm, sched_mod, sample, next, after),
    ensures
        pm.task(prev).sched_info.on_rq == OnRq::Queued ==> after.pm.task(prev).sched_info.on_rq
            == OnRq::Unqueued,
        pm.task(prev).sched_info.on_rq != OnRq::Queued ==> after.pm.task(prev).sched_info.on_rq
            == pm.task(prev).sched_info.on_rq,
        after.pm.task(prev).sched_info.state == ProcessState::Stopped,
        after.rq.nr_uninterruptible == sched.rq(pm.cpu).nr_uninterruptible,
        !after.pm.task(prev).flags.sched_contributes_to_load,
{
    law_sleeping_task_leaves_its_queue::<K>(sched, pm, sched_mod, sample, next, after, prev);
}

/// A task that is marked to sleep, or stopped, is on no queue after a pass of the scheduler that
/// it entered to give up the processor, unless a signal that waits for it keeps it awake: any
/// signal in an interruptible sleep, `SIGKILL` in a killable one and in a stop. The task counts
/// as load exactly if nothing but its event can wake it, and as waiting for input or output if
/// it is marked so. If it has lost the processor, that was of its own will.
#[verifier::rlimit(40)]
pub proof fn law_sleeping_task_leaves_its_queue<K: SchedClasses>(
    sched: SchedCoreView,
    pm: ProcessManagerView,
    sched_mod: SchedMode,
    sample: ClockSample,
    next: TaskId,
    after: PassState,
    prev: TaskId,
)
    requires
        crate::sched::schedule::can_schedule(sched, pm),
        sched.rq(pm.cpu).current == Some(prev),
        sched_mod.bits & 1 == 0,
        pm.task(prev).sched_info.policy != SchedPolicy::IDLE,
        !pm.task(prev).flags.need_migrate || pm.task(prev).sched_info.migrate_to is None,
        pm.task(prev).sched_info.mark_sleep || pm.task(prev).sched_info.state
            == ProcessState::Stopped,
        !(pm.task(prev).sched_info.state is Exited),
        !pm.task(prev).has_pending_signal || (pm.task(prev).sched_info.state
            != ProcessState::Blocked(true) && ((pm.task(prev).sig_pending.bits >> 8u64) & 1 == 0
            || (pm.task(prev).sched_info.state != ProcessState::Stopped && !pm.task(
            prev,
        ).sched_info.wake_kill))),
        crate::sched::schedule::schedule_rel::<K>(sched, pm, sched_mod, sample, next, after),
    ensures
        ({
            let p = pm.task(prev);
            let q = after.pm.task(prev);
            let load = p.sched_info.state == ProcessState::Blocked(false);
            &&& q.sched_info.on_rq == if p.sched_info.on_rq == OnRq::Queued {
                OnRq::Unqueued
            } else {
                p.sched_info.on_rq
            }
            &&& q.sched_info.state == p.sched_info.state
            &&& q.sched_info.mark_sleep == p.sched_info.mark_sleep
            &&& q.sched_info.cpu == p.sched_info.cpu
            &&& q.flags.sched_contributes_to_load == load
            &&& q.flags.in_iowait == p.flags.in_iowait
            &&& !q.flags.need_schedule
            &&& after.rq.nr_uninterruptible == if load {
                sched.rq(pm.cpu).nr_uninterruptible.wrapping_add(1)
            } else {
                sched.rq(pm.cpu).nr_uninterruptible
            }
            &&& after.rq.nr_iowait == if p.flags.in_iowait {
                sched.rq(pm.cpu).nr_iowait.wrapping_add(1)
            } else {
                sched.rq(pm.cpu).nr_iowait
            }
            &&& q.nvcsw == if next != prev {
                p.nvcsw.wrapping_add(1)
            } else {
                p.nvcsw
            }
            &&& q.nivcsw == p.nivcsw
        }),
{
    let start = PassState::entry(sched, pm, sample);
    let (moved, blocked, picked) = lemma_steps::<K>(sched, pm, sched_mod, sample, next, after);
    crate::sched::flags::lemma_flag_words();
    let p = pm.task(prev);
    assert(start.pm.task(prev) == p);
    assert(p.is_leaving());
    assert(!p.kept_by_signal());
    assert(start.gives_up(prev, sched_mod));
    assert(moved == start);
    let mid = choose|mid: RqState| start.here().sleep_path::<K>(prev, mid, blocked);
    let counted = start.here().counted_as_load(prev);
    lemma_left::<K>(counted, prev, mid);
    counted.pm.task(prev).lemma_kept(mid.pm.task(prev));
    counted.pm.task(prev).lemma_kept_counts(mid.pm.task(prev));
    lemma_picked::<K>(blocked, prev, next, picked);
    blocked.lemma_spared(picked, prev);
    blocked.pm.task(prev).lemma_kept_counts(picked.pm.task(prev));
    lemma_committed(
        PassState::of(picked.rq, moved.sched, picked.pm),
        prev,
        next,
        true,
        pm.irq_enabled,
    );
}

/// A task that a signal keeps awake stays on its queue and can run: any signal in an
/// interruptible sleep, `SIGKILL` in a killable one and in a stop. Neither the load nor the
/// sleepers become more.
#[verifier::rlimit(40)]
pub proof fn law_signal_keeps_a_task_running<K: SchedClasses>(
    sched: SchedCoreView,
    pm: ProcessManagerView,
    sched_mod: SchedMode,
    sample: ClockSample,
    next: TaskId,
    after: PassState,
    prev: TaskId,
)
    requires
        crate::sched::schedule::can_schedule(sched, pm),
        sched.rq(pm.cpu).current == Some(prev),
        sched_mod.bits & 1 == 0,
        pm.task(prev).sched_info.policy != SchedPolicy::IDLE,
        !pm.task(prev).flags.need_migrate || pm.task(prev).sched_info.migrate_to is None,
        pm.task(prev).sched_info.mark_sleep || pm.task(prev).sched_info.state
            == ProcessState::Stopped,
        !(pm.task(prev).sched_info.state is Exited),
        pm.task(prev).has_pending_signal,
        pm.task(prev).sched_info.state == ProcessState::Blocked(true) || ((pm.task(
            prev,
        ).sig_pending.bits >> 8u64) & 1 == 1 && (pm.task(prev).sched_info.state
            == ProcessState::Stopped || pm.task(prev).sched_info.wake_kill)),
        crate::sched::schedule::schedule_rel::<K>(sched, pm, sched_mod, sample, next, after),
    ensures
        ({
            let p = pm.task(prev);
            let q = after.pm.task(prev);
            &&& q.sched_info.on_rq == p.sched_info.on_rq
            &&& q.sched_info.state == ProcessState::Runnable
            &&& !q.sched_info.mark_sleep
            &&& q.sched_info.cpu == p.sched_info.cpu
            &&& q.sched_info.on_cpu == p.sched_info.on_cpu
            &&& !q.flags.need_schedule
            &&& !q.flags.sched_contributes_to_load
            &&& q.flags.in_iowait == p.flags.in_iowait
            &&& after.rq.nr_uninterruptible == sched.rq(pm.cpu).nr_uninterruptible
            &&& after.rq.nr_iowait == sched.rq(pm.cpu).nr_iowait
            &&& q.nvcsw == if next != prev {
                p.nvcsw.wrapping_add(1)
            } else {
                p.nvcsw
            }
            &&& q.nivcsw == p.nivcsw
        }),
{
    let start = PassState::entry(sched, pm, sample);
    let (moved, blocked, picked) = lemma_steps::<K>(sched, pm, sched_mod, sample, next, after);
    crate::sched::flags::lemma_flag_words();
    let p = pm.task(prev);
    assert(start.pm.task(prev) == p);
    assert(moved == start);
    assert(blocked == start.here().with_task(prev, p.with_load_mark(false).runnable()));
    lemma_picked::<K>(blocked, prev, next, picked);
    blocked.lemma_spared(picked, prev);
    blocked.pm.task(prev).lemma_kept_counts(picked.pm.task(prev));
    lemma_committed(
        PassState::of(picked.rq, moved.sched, picked.pm),
        prev,
        next,
        true,
        pm.irq_enabled,
    );
}

/// A task that has exited leaves its queue whatever signals wait for it, and counts neither as
/// load nor as a sleeper.
#[verifier::rlimit(40)]
pub proof fn law_exited_task_leaves_its_queue<K: SchedClasses>(
    sched: SchedCoreView,
    pm: ProcessManagerView,
    sched_mod: SchedMode,
    sample: ClockSample,
    next: TaskId,
    after: PassState,
    prev: TaskId,
)
    requires
        crate::sched::schedule::can_schedule(sched, pm),
        sched.rq(pm.cpu).current == Some(prev),
        sched_mod.bits & 1 == 0,
        pm.task(prev).sched_info.policy != SchedPolicy::IDLE,
        !pm.task(prev).flags.need_migrate || pm.task(prev).sched_info.migrate_to is None,
        pm.task(prev).sched_info.state is Exited,
        crate::sched::schedule::schedule_rel::<K>(sched, pm, sched_mod, sample, next, after),
    ensures
        ({
            let p = pm.task(prev);
            let q = after.pm.task(prev);
            &&& q.sched_info.on_rq == if p.sched_info.on_rq == OnRq::Queued {
                OnRq::Unqueued
            } else {
                p.sched_info.on_rq
            }
            &&& q.sched_info.state == p.sched_info.state
            &&& q.sched_info.cpu == p.sched_info.cpu
            &&& !q.flags.need_schedule
            &&& !q.flags.sched_contributes_to_load
            &&& q.flags.in_iowait == p.flags.in_iowait
            &&& after.rq.nr_uninterruptible == sched.rq(pm.cpu).nr_uninterruptible
            &&& after.rq.nr_iowait == sched.rq(pm.cpu).nr_iowait
            &&& q.nvcsw == if next != prev {
                p.nvcsw.wrapping_add(1)
            } else {
                p.nvcsw
            }
            &&& q.nivcsw == p.nivcsw
        }),
{
    let start = PassState::entry(sched, pm, sample);
    let (moved, blocked, picked) = lemma_steps::<K>(sched, pm, sched_mod, sample, next, after);
    crate::sched::flags::lemma_flag_words();
    let p = pm.task(prev);
    assert(start.pm.task(prev) == p);
    assert(moved == start);
    let marked = start.here().with_task(prev, p.with_load_mark(false));
    lemma_left::<K>(marked, prev, blocked);
    marked.pm.task(prev).lemma_kept(blocked.pm.task(prev));
    lemma_picked::<K>(blocked, prev, next, picked);
    blocked.lemma_spared(picked, prev);
    marked.pm.task(prev).lemma_kept_counts(blocked.pm.task(prev));
    blocked.pm.task(prev).lemma_kept_counts(picked.pm.task(prev));
    lemma_committed(
        PassState::of(picked.rq, moved.sched, picked.pm),
        prev,
        next,
        true,
        pm.irq_enabled,
    );
}

/// A task that could run on keeps its place and its state. So does one that is preempted, even
/// if it is marked to sleep, stopped or has exited, and the idle task. If it has lost the
/// processor that was against its will.
#[verifier::rlimit(40)]
pub proof fn law_task_that_does_not_leave_stays_queued<K: SchedClasses>(
    sched: SchedCoreView,
    pm: ProcessManagerView,
    sched_mod: SchedMode,
    sample: ClockSample,
    next: TaskId,
    after: PassState,
    prev: TaskId,
)
    requires
        crate::sched::schedule::can_schedule(sched, pm),
        sched.rq(pm.cpu).current == Some(prev),
        !pm.task(prev).flags.need_migrate || pm.task(prev).sched_info.migrate_to is None,
        sched_mod.bits & 1 == 1 || pm.task(prev).sched_info.policy == SchedPolicy::IDLE || (
        !pm.task(prev).sched_info.mark_sleep && (pm.task(prev).sched_info.state == ProcessState::Runnable
            || pm.task(prev).sched_info.state is Blocked)),
        crate::sched::schedule::schedule_rel::<K>(sched, pm, sched_mod, sample, next, after),
    ensures
        ({
            let p = pm.task(prev);
            let q = after.pm.task(prev);
            &&& q.sched_info.on_rq == p.sched_info.on_rq
            &&& q.sched_info.state == p.sched_info.state
            &&& q.sched_info.mark_sleep == p.sched_info.mark_sleep
            &&& q.sched_info.cpu == p.sched_info.cpu
            &&& q.sched_info.on_cpu == p.sched_info.on_cpu
            &&& q.sched_info.cpus_allowed == p.sched_info.cpus_allowed
            &&& !q.flags.need_schedule
            &&& q.flags.sched_contributes_to_load == p.flags.sched_contributes_to_load
            &&& q.flags.in_iowait == p.flags.in_iowait
            &&& after.rq.nr_uninterruptible == sched.rq(pm.cpu).nr_uninterruptible
            &&& after.rq.nr_iowait == sched.rq(pm.cpu).nr_iowait
            &&& q.nvcsw == p.nvcsw
            &&& q.nivcsw == if next != prev {
                p.nivcsw.wrapping_add(1)
            } else {
                p.nivcsw
            }
        }),
{
    let start = PassState::entry(sched, pm, sample);
    let (moved, blocked, picked) = lemma_steps::<K>(sched, pm, sched_mod, sample, next, after);
    crate::sched::flags::lemma_flag_words();
    let p = pm.task(prev);
    assert(start.pm.task(prev) == p);
    assert(moved == start);
    assert(blocked == start.here());
    lemma_picked::<K>(blocked, prev, next, picked);
    blocked.lemma_spared(picked, prev);
    blocked.pm.task(prev).lemma_kept_counts(picked.pm.task(prev));
    lemma_committed(
        PassState::of(picked.rq, moved.sched, picked.pm),
        prev,
        next,
        false,
        pm.irq_enabled,
    );
}

/// A task that was asked to move to another processor belongs there after the pass, runs on no
/// processor and stands on no queue, and is asked no longer. It is handed over once the switch
/// away from it is done, and its state is the same, whether or not it was about to sleep.
#[verifier::rlimit(40)]
pub proof fn law_task_moves_where_it_was_asked_to<K: SchedClasses>(
    sched: SchedCoreView,
    pm: ProcessManagerView,
    sched_mod: SchedMode,
    sample: ClockSample,
    next: TaskId,
    after: PassState,
    prev: TaskId,
    dest: ProcessorId,
)
    requires
        crate::sched::schedule::can_schedule(sched, pm),
        sched.rq(pm.cpu).current == Some(prev),
        pm.task(prev).flags.need_migrate,
        pm.task(prev).sched_info.migrate_to == Some(dest),
        next != prev,
        crate::sched::schedule::schedule_rel::<K>(sched, pm, sched_mod, sample, next, after),
    ensures
        ({
            let p = pm.task(prev);
            let q = after.pm.task(prev);
            &&& q.sched_info.cpu == dest
            &&& q.sched_info.on_rq == OnRq::Unqueued
            &&& q.sched_info.on_cpu is None
            &&& q.sched_info.migrate_to is None
            &&& !q.flags.need_schedule
            &&& !q.flags.need_migrate
            &&& q.flags.in_iowait == p.flags.in_iowait
            &&& q.sched_info.state == p.sched_info.state
            &&& q.sched_info.mark_sleep == p.sched_info.mark_sleep
            &&& p.sched_info.policy == SchedPolicy::CFS ==> q.sched_info.sched_entity.cfs_rq == dest
            &&& after.rq.nr_uninterruptible == sched.rq(pm.cpu).nr_uninterruptible
            &&& after.rq.nr_iowait == sched.rq(pm.cpu).nr_iowait
            &&& after.pm.actions.contains(Action::MigrateAfterSwitch(dest))
            &&& q.nvcsw == p.nvcsw
            &&& q.nivcsw == p.nivcsw.wrapping_add(1)
        }),
{
    let start = PassState::entry(sched, pm, sample);
    let (moved, blocked, picked) = lemma_steps::<K>(sched, pm, sched_mod, sample, next, after);
    let p = pm.task(prev);
    assert(start.pm.task(prev) == p);
    let mid = choose|mid: RqState| start.migrate_path::<K>(prev, dest, mid, moved);
    let asked = start.here().with_task(prev, p.with_move_taken());
    lemma_dequeue_flags();
    lemma_off::<K>(asked, prev, DequeueFlag { bits: DEQUEUE_TO_MOVE }, mid);
    asked.pm.task(prev).lemma_kept(mid.pm.task(prev));
    asked.pm.task(prev).lemma_kept_counts(mid.pm.task(prev));
    let off = PassState::of(mid.rq, start.sched, mid.pm);
    let e = mid.pm.task(prev).sched_info.sched_entity;
    if mid.pm.task(prev).sched_info.policy == SchedPolicy::CFS {
        lemma_forgotten(off, e);
    }
    assert(blocked == moved.here());
    assert(blocked.pm.tasks == mid.pm.tasks.update(prev as int, blocked.pm.task(prev)));
    assert(blocked.rq.nr_uninterruptible == mid.rq.nr_uninterruptible);
    assert(blocked.wf());
    lemma_picked::<K>(blocked, prev, next, picked);
    blocked.lemma_spared(picked, prev);
    blocked.pm.task(prev).lemma_kept_counts(picked.pm.task(prev));
    lemma_committed(
        PassState::of(picked.rq, moved.sched, picked.pm),
        prev,
        next,
        false,
        pm.irq_enabled,
    );
    let n = mid.pm.actions.len() as int;
    assert(blocked.pm.actions[n] == Action::MigrateAfterSwitch(dest));
    assert(picked.pm.actions[n] == blocked.pm.actions[n]) by {
        assert(blocked.pm.actions == picked.pm.actions.subrange(
            0,
            blocked.pm.actions.len() as int,
        ));
        assert(picked.pm.actions.subrange(0, blocked.pm.actions.len() as int)[n]
            == picked.pm.actions[n]);
    }
    assert(after.pm.actions[n] == picked.pm.actions[n]);
}

/// Noting that no task runs in the fair run queues of a task touches no task, and of the queue
/// only that.
proof fn lemma_forgotten(state: PassState, e: crate::sched::entity::FairSchedEntity)
    requires
        crate::sched::percpu::groups_wf(state.sched.task_groups),
        e.fits(state.sched.task_groups.len()),
    ensures
        ({
            let after = state.levels_forgotten(e);
            &&& after.pm == state.pm
            &&& after.rq == (crate::sched::rq::CpuRunQueue { cfs: after.rq.cfs, ..state.rq })
            &&& after.sched.idle_cpus == state.sched.idle_cpus
        }),
    decreases e.level(),
{
    let one = state.queue_forgotten(e);
    if let Some(g) = e.cfs_group {
        crate::sched::percpu::lemma_group_forgotten(state.sched.task_groups, g as int, e.cfs_rq);
    }
    if let Some(p) = e.parent {
        crate::sched::percpu::lemma_group_entity(state.sched.task_groups, p);
        let up = state.sched.task_groups[p.group as int].entitys[p.cpu.id as int];
        lemma_forgotten(one, up);
    }
}

/// What the switch at the end of a pass does.
#[verifier::rlimit(40)]
proof fn lemma_switched(end: PassState, prev: TaskId, next: TaskId, voluntary: bool)
    requires
        end.pm.has(prev),
        end.pm.has(next),
        prev != next,
        end.rq.cpu.id < crate::smp::cpu::MAX_CPU_NUM,
    ensures
        ({
            let after = end.switched(prev, next, voluntary);
            let n = after.pm.task(next);
            &&& after.rq.current == Some(next)
            &&& after.rq.current_ptr == Some(next)
            &&& after.rq.lock == end.rq.lock
            &&& after.pm.irq_enabled == end.pm.irq_enabled
            &&& n.sched_info.on_cpu == Some(end.rq.cpu)
            &&& n.flags.need_rseq == (end.pm.task(next).flags.need_rseq || end.pm.task(
                next,
            ).rseq_registered)
            &&& !after.pm.task(prev).flags.need_schedule
            &&& after.pm.actions == end.pm.actions.push(Action::RseqPreempt(prev)).push(
                Action::AccountContextSwitch,
            ).push(Action::SwitchProcess { prev, next })
            &&& after.sched.idle_cpus.bits@[end.rq.cpu.id as int] == if end.pm.task(
                next,
            ).sched_info.policy == SchedPolicy::IDLE {
                true
            } else if end.pm.task(prev).sched_info.policy == SchedPolicy::IDLE {
                false
            } else {
                end.sched.idle_cpus.bits@[end.rq.cpu.id as int]
            }
            &&& forall|i: int|
                0 <= i < 128 && i != end.rq.cpu.id ==> #[trigger] after.sched.idle_cpus.bits@[i]
                    == end.sched.idle_cpus.bits@[i]
        }),
{
    let after = end.switched(prev, next, voluntary);
    assert(after.pm.tasks[next as int] == end.pm.task(next).coming_on(end.rq.cpu));
}

/// A pass that gives the processor to another task leaves it running here: the queue names it,
/// and it knows its processor. The lock of the queue is held and interrupts are off until the
/// switch is done; that the old task loses the processor, that there is a switch, and the switch
/// itself are noted in this order. The processor counts as idle exactly if the idle task comes,
/// and as before if neither task is an idle one.
#[verifier::rlimit(40)]
pub proof fn law_switch_gives_the_processor<K: SchedClasses>(
    sched: SchedCoreView,
    pm: ProcessManagerView,
    sched_mod: SchedMode,
    sample: ClockSample,
    next: TaskId,
    after: PassState,
    prev: TaskId,
)
    requires
        crate::sched::schedule::can_schedule(sched, pm),
        sched.rq(pm.cpu).current == Some(prev),
        !pm.task(prev).flags.need_migrate || pm.task(prev).sched_info.migrate_to is None,
        next != prev,
        crate::sched::schedule::schedule_rel::<K>(sched, pm, sched_mod, sample, next, after),
    ensures
        after.rq.current == Some(next),
        after.rq.current_ptr == Some(next),
        after.rq.lock.locked,
        !after.pm.irq_enabled,
        after.pm.task(next).sched_info.on_cpu == Some(pm.cpu),
        after.pm.task(next).flags.need_rseq == (pm.task(next).flags.need_rseq || pm.task(
            next,
        ).rseq_registered),
        !after.pm.task(prev).flags.need_schedule,
        ({
            let n = after.pm.actions.len() as int;
            &&& n >= 3
            &&& after.pm.actions[n - 3] == Action::RseqPreempt(prev)
            &&& after.pm.actions[n - 2] == Action::AccountContextSwitch
            &&& after.pm.actions[n - 1] == (Action::SwitchProcess { prev, next })
        }),
        forall|i: int|
            0 <= i < 128 && i != pm.cpu.id ==> #[trigger] after.sched.idle_cpus.bits@[i]
                == sched.idle_cpus.bits@[i],
        after.sched.idle_cpus.bits@[pm.cpu.id as int] == if pm.task(next).sched_info.policy
            == SchedPolicy::IDLE {
            true
        } else if pm.task(prev).sched_info.policy == SchedPolicy::IDLE {
            false
        } else {
            sched.idle_cpus.bits@[pm.cpu.id as int]
        },
{
    let start = PassState::entry(sched, pm, sample);
    let (moved, blocked, picked) = lemma_steps::<K>(sched, pm, sched_mod, sample, next, after);
    lemma_blocked::<K>(start.here(), prev, sched_mod, start, blocked);
    start.here().lemma_stayed(blocked);
    lemma_picked::<K>(blocked, prev, next, picked);
    blocked.lemma_spared(picked, prev);
    blocked.lemma_spared(picked, next);
    assert(start.pm.task(next).stays(blocked.pm.task(next)));
    assert(start.pm.task(prev).stays(blocked.pm.task(prev)));
    start.here().lemma_other(prev, blocked, next);
    start.pm.task(next).lemma_kept_counts(blocked.pm.task(next));
    blocked.pm.task(next).lemma_kept_counts(picked.pm.task(next));
    lemma_switched(
        PassState::of(picked.rq, moved.sched, picked.pm),
        prev,
        next,
        start.gives_up(prev, sched_mod) && pm.task(prev).is_leaving(),
    );
}

/// A pass that leaves the processor with the task that had it undoes what it did to make the
/// choice: the lock is free, interrupts are on if they were, and the task need not give up the
/// processor any more.
#[verifier::rlimit(40)]
pub proof fn law_pass_without_a_switch_goes_on<K: SchedClasses>(
    sched: SchedCoreView,
    pm: ProcessManagerView,
    sched_mod: SchedMode,
    sample: ClockSample,
    after: PassState,
    prev: TaskId,
)
    requires
        crate::sched::schedule::can_schedule(sched, pm),
        sched.rq(pm.cpu).current == Some(prev),
        !pm.task(prev).flags.need_migrate || pm.task(prev).sched_info.migrate_to is None,
        crate::sched::schedule::schedule_rel::<K>(sched, pm, sched_mod, sample, prev, after),
    ensures
        after.rq.current == Some(prev),
        !after.rq.lock.locked,
        after.pm.irq_enabled == pm.irq_enabled,
        !after.pm.task(prev).flags.need_schedule,
{
    let start = PassState::entry(sched, pm, sample);
    let (moved, blocked, picked) = lemma_steps::<K>(sched, pm, sched_mod, sample, prev, after);
    lemma_blocked::<K>(start.here(), prev, sched_mod, start, blocked);
    start.here().lemma_stayed(blocked);
    lemma_picked::<K>(blocked, prev, prev, picked);
    blocked.lemma_spared(picked, prev);
    assert(start.pm.task(prev).stays(blocked.pm.task(prev)));
}

/// What a task counts as, and whether it can run, is not what the scheduler relies on.
proof fn lemma_load_mark(p: ProcessControlBlock, v: bool)
    ensures
        p.stays(p.with_load_mark(v)),
        p.with_load_mark(v).sighand == p.sighand,
        p.stays(p.with_load_mark(v).runnable()),
        p.with_load_mark(v).runnable().sighand == p.sighand,
{
}

/// What stays when a task that has exited leaves its queue.
#[verifier::rlimit(40)]
proof fn lemma_blocked_exited<K: SchedClasses>(state: RqState, prev: TaskId, after: RqState)
    requires
        state.wf(),
        state.pm.has(prev),
        state.with_task(prev, state.pm.task(prev).with_load_mark(false)).leave::<K>(prev, after),
    ensures
        state.stays(after),
        state.spares_others(prev, after),
{
    let q = state.pm.task(prev).with_load_mark(false);
    let s1 = RqState { rq: state.rq, pm: state.pm.with_task(prev, q) };
    lemma_load_mark(state.pm.task(prev), false);
    state.lemma_stays_step(prev, q, state.rq);
    state.lemma_others_same(prev, q, state.rq);
    state.lemma_stayed(s1);
    lemma_left::<K>(s1, prev, after);
    lemma_left_stays(s1, prev, after);
    state.lemma_stays_on(s1, after);
    state.lemma_others(prev, s1, after);
}

/// What stays when a task falls asleep.
#[verifier::rlimit(40)]
proof fn lemma_blocked_asleep<K: SchedClasses>(
    state: RqState,
    prev: TaskId,
    mid: RqState,
    after: RqState,
)
    requires
        state.wf(),
        state.pm.has(prev),
        state.sleep_path::<K>(prev, mid, after),
    ensures
        state.stays(after),
        state.spares_others(prev, after),
{
    let s1 = state.counted_as_load(prev);
    let p = state.pm.task(prev);
    let load = p.sched_info.state == ProcessState::Blocked(false);
    let q = p.with_load_mark(load);
    lemma_load_mark(p, load);
    assert(s1 == (RqState { rq: s1.rq, pm: state.pm.with_task(prev, q) }));
    state.lemma_stays_step(prev, q, s1.rq);
    state.lemma_others_same(prev, q, s1.rq);
    state.lemma_stayed(s1);
    lemma_left::<K>(s1, prev, mid);
    lemma_left_stays(s1, prev, mid);
    state.lemma_stays_on(s1, mid);
    state.lemma_others(prev, s1, mid);
    assert(after.pm == mid.pm);
    mid.lemma_stays_step(prev, mid.pm.task(prev), after.rq);
    state.lemma_stays_on(mid, after);
    assert(state.spares_others(prev, after)) by {
        reveal(RqState::spares_others);
    }
}

/// What stays when the task that ran leaves its queue or does not.
#[verifier::rlimit(40)]
proof fn lemma_blocked<K: SchedClasses>(
    state: RqState,
    prev: TaskId,
    sched_mod: SchedMode,
    start: PassState,
    blocked: RqState,
)
    requires
        state.wf(),
        state.pm.has(prev),
        start.here() == state,
        if start.gives_up(prev, sched_mod) {
            state.block::<K>(prev, blocked)
        } else {
            blocked == state
        },
    ensures
        state.stays(blocked),
        state.spares_others(prev, blocked),
{
    let p = state.pm.task(prev);
    state.lemma_keeps_self();
    state.lemma_stays(state);
    state.lemma_spares_self();
    state.lemma_spares_keeps(state);
    assert(state.spares_others(prev, state));
    if start.gives_up(prev, sched_mod) && p.is_leaving() {
        if p.kept_by_signal() {
            let q = p.with_load_mark(false).runnable();
            lemma_load_mark(p, false);
            state.lemma_stays_step(prev, q, state.rq);
            state.lemma_others_same(prev, q, state.rq);
        } else if p.sched_info.state.is_exited() {
            lemma_blocked_exited::<K>(state, prev, blocked);
        } else {
            let mid = choose|mid: RqState| state.sleep_path::<K>(prev, mid, blocked);
            lemma_blocked_asleep::<K>(state, prev, mid, blocked);
        }
    }
}

/// A step that queueing may take, and that leaves the other tasks to their classes, keeps what
/// the scheduler relies on.
proof fn lemma_left_stays(state: RqState, t: TaskId, after: RqState)
    requires
        after.wf(),
        state.pm.has(t),
        state.rq.kept_by_queueing(after.rq),
        state.pm.kept_by_queueing(after.pm),
        state.pm.task(t).kept_by_queueing(after.pm.task(t)),
        state.spares_others(t, after),
    ensures
        state.stays(after),
{
    reveal(RqState::stays);
    assert forall|u: TaskId| state.pm.has(u) implies state.pm.task(u).stays(
        #[trigger] after.pm.task(u),
    ) by {
        if u == t {
            state.pm.task(t).lemma_kept(after.pm.task(t));
        } else {
            state.lemma_other(t, after, u);
        }
    }
}

/// Tasks that neither had the processor nor get it keep their place, their state, their
/// processor and where they may run, whatever becomes of the one that had it.
#[verifier::rlimit(40)]
pub proof fn law_pass_leaves_other_tasks_alone<K: SchedClasses>(
    sched: SchedCoreView,
    pm: ProcessManagerView,
    sched_mod: SchedMode,
    sample: ClockSample,
    next: TaskId,
    after: PassState,
    prev: TaskId,
    t: TaskId,
)
    requires
        crate::sched::schedule::can_schedule(sched, pm),
        sched.rq(pm.cpu).current == Some(prev),
        !pm.task(prev).flags.need_migrate || pm.task(prev).sched_info.migrate_to is None,
        pm.has(t),
        t != prev,
        crate::sched::schedule::schedule_rel::<K>(sched, pm, sched_mod, sample, next, after),
    ensures
        ({
            let p = pm.task(t);
            let q = after.pm.task(t);
            &&& q.sched_info.on_rq == p.sched_info.on_rq
            &&& q.sched_info.state == p.sched_info.state
            &&& q.sched_info.mark_sleep == p.sched_info.mark_sleep
            &&& q.sched_info.cpu == p.sched_info.cpu
            &&& q.sched_info.policy == p.sched_info.policy
            &&& q.sched_info.cpus_allowed == p.sched_info.cpus_allowed
            &&& q.sched_info.migrate_to == p.sched_info.migrate_to
            &&& t != next ==> q.sched_info.on_cpu == p.sched_info.on_cpu
            &&& q.nvcsw == p.nvcsw
            &&& q.nivcsw == p.nivcsw
        }),
{
    let start = PassState::entry(sched, pm, sample);
    let (moved, blocked, picked) = lemma_steps::<K>(sched, pm, sched_mod, sample, next, after);
    lemma_blocked::<K>(start.here(), prev, sched_mod, start, blocked);
    start.here().lemma_other(prev, blocked, t);
    start.here().lemma_stayed(blocked);
    lemma_picked::<K>(blocked, prev, next, picked);
    blocked.lemma_spared(picked, t);
    start.pm.task(t).lemma_kept_counts(blocked.pm.task(t));
    blocked.pm.task(t).lemma_kept_counts(picked.pm.task(t));
    let end = PassState::of(picked.rq, moved.sched, picked.pm);
    if prev != next {
        if t != next {
            assert(after.pm.tasks[t as int] == picked.pm.task(t));
        } else {
            assert(after.pm.tasks[t as int] == picked.pm.task(t).coming_on(picked.rq.cpu));
        }
    } else {
        assert(after.pm.tasks[t as int] == picked.pm.task(t));
    }
}

/// Which task comes next is up to the classes in their order: while the first-in-first-out class
/// has tasks it picks, and only if it picks none, or has none, does the fair class. If that picks
/// none either the idle task comes.
pub proof fn law_classes_pick_in_their_order<K: SchedClasses>(
    state: RqState,
    prev: TaskId,
    next: TaskId,
    after: RqState,
)
    requires
        state.pick_next::<K>(prev, next, after),
    ensures
        state.rq.fifo.nr_running > 0 ==> exists|picked: Option<TaskId>, mid: RqState| #[trigger]
            K::Fifo::pick_next_task_rel(state, Some(prev), picked, mid) && match picked {
                Some(t) => next == t,
                None => exists|fair: Option<TaskId>, end: RqState| #[trigger]
                    K::Fair::pick_next_task_rel(mid, Some(prev), fair, end) && match fair {
                        Some(t) => next == t,
                        None => Some(next) == state.pm.upgrade(state.rq.idle) || state.pm.upgrade(
                            state.rq.idle,
                        ) is None,
                    },
            },
        state.rq.fifo.nr_running == 0 ==> exists|fair: Option<TaskId>, end: RqState| #[trigger]
            K::Fair::pick_next_task_rel(state, Some(prev), fair, end) && match fair {
                Some(t) => next == t,
                None => Some(next) == state.pm.upgrade(state.rq.idle) || state.pm.upgrade(
                    state.rq.idle,
                ) is None,
            },
{
}

} // verus!
