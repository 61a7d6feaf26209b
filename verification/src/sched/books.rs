//! What the books of the scheduler say after each of its steps.
use crate::process::action::{Action, CpuIdleType};
use crate::process::manager::ProcessManagerView;
use crate::process::pcb::{ProcessControlBlock, ProcessFlags, TaskId};
use crate::sched::entity::{FairSchedEntity, ProcessSchedulerInfo, ProcessState};
use crate::sched::flags::{DequeueFlag, EnqueueFlag, WakeupFlags};
use crate::sched::percpu::SchedCoreView;
use crate::sched::policy::{OnRq, SchedPolicy};
use crate::sched::prio::PrioUtil;
use crate::sched::rq::{CfsRunQueue, ClockSample, CpuRunQueue};
use crate::sched::scheduler::{FairScheduler, RqState, SchedClasses, Scheduler};
use crate::sched::wake::WakeState;
use crate::smp::cpu::{ProcessorId, MAX_CPU_NUM};
use vstd::prelude::*;

verus! {

/// Real-time tasks go before first-in-first-out ones, those before the fair class, and everything
/// before the idle task.
pub proof fn law_order_of_the_policies(p: SchedPolicy)
    ensures
        SchedPolicy::RT.outranks(p) <==> p != SchedPolicy::RT,
        SchedPolicy::FIFO.outranks(p) <==> p == SchedPolicy::CFS || p == SchedPolicy::IDLE,
        SchedPolicy::CFS.outranks(p) <==> p == SchedPolicy::IDLE,
        !SchedPolicy::IDLE.outranks(p),
        SchedPolicy::RT.to_u8() == 0,
        SchedPolicy::FIFO.to_u8() == 1,
        SchedPolicy::CFS.to_u8() == 2,
        SchedPolicy::IDLE.to_u8() == 3,
{
}

/// Nice value 0 is priority 120 and each step of niceness one more; real-time priority `n` is
/// priority `99 - n`. Below 100 a priority is one of real time, and below 0 one with a deadline.
pub proof fn law_scale_of_priorities(nice: i32, rt: i32, prio: i32)
    ensures
        PrioUtil::prio_of_nice(nice as int) == nice + 120,
        PrioUtil::nice_of_prio(prio as int) == prio - 120,
        PrioUtil::spec_normal_prio_for(SchedPolicy::CFS, rt, nice) == nice + 120,
        PrioUtil::spec_normal_prio_for(SchedPolicy::IDLE, rt, nice) == nice + 120,
        PrioUtil::spec_normal_prio_for(SchedPolicy::FIFO, rt, nice) == 99 - rt,
        PrioUtil::spec_normal_prio_for(SchedPolicy::RT, rt, nice) == 99 - rt,
        PrioUtil::rt_prio(prio) <==> prio < 100,
        PrioUtil::dl_prio(prio) <==> prio < 0,
{
}

/// The user sees the real-time priority of a task with a real-time policy, brought between 1 and
/// 99, and 0 of any other. Number 0 asks for the running task.
pub proof fn law_priority_that_the_user_sees(
    pm: ProcessManagerView,
    pid: usize,
    policy: SchedPolicy,
    rt: i32,
)
    ensures
        ({
            let shown = crate::sched::getparam::shown_priority(policy, rt);
            let real_time = policy == SchedPolicy::RT || policy == SchedPolicy::FIFO;
            &&& !real_time ==> shown == 0
            &&& real_time && 1 <= rt <= 99 ==> shown == rt
            &&& real_time && rt < 1 ==> shown == 1
            &&& real_time && rt > 99 ==> shown == 99
        }),
        pid == 0 ==> crate::sched::getparam::getparam_target(pm, pid) == Some(pm.current),
        pid != 0 ==> crate::sched::getparam::getparam_target(pm, pid) == pm.find_vpid(
            crate::process::signal::RawPid { data: pid },
        ),
{
}

/// A child has the priorities of its parent, but not what the parent has been lent: its priority
/// is the normal one of the parent. It has the policy of the parent if that priority is one of
/// real time, and is a task of the fair class otherwise.
pub proof fn law_child_inherits(
    p: ProcessControlBlock,
    parent: ProcessSchedulerInfo,
    policy: SchedPolicy,
    se: FairSchedEntity,
)
    ensures
        p.with_prios_of(parent) == (ProcessControlBlock {
            sched_info: ProcessSchedulerInfo {
                prio: parent.normal_prio,
                normal_prio: parent.normal_prio,
                static_prio: parent.static_prio,
                rt_priority: parent.rt_priority,
                ..p.sched_info
            },
            ..p
        }),
        p.with_policy(policy, se) == (ProcessControlBlock {
            sched_info: ProcessSchedulerInfo { policy, sched_entity: se, ..p.sched_info },
            ..p
        }),
        parent.normal_prio < 100 ==> crate::sched::fork::fork_policy(parent) == parent.policy,
        parent.normal_prio >= 100 ==> crate::sched::fork::fork_policy(parent) == SchedPolicy::CFS,
{
}

/// A task that is asked to move notes where to, and should give up the processor for that. When
/// that is taken up it is asked no longer; nothing else changes.
pub proof fn law_request_to_move(p: ProcessControlBlock, dest: ProcessorId)
    ensures
        p.asked_to_move(dest).flags == (ProcessFlags {
            need_migrate: true,
            need_schedule: true,
            ..p.flags
        }),
        p.asked_to_move(dest).sched_info == (ProcessSchedulerInfo {
            migrate_to: Some(dest),
            ..p.sched_info
        }),
        p.with_move_taken().flags == (ProcessFlags { need_migrate: false, ..p.flags }),
        p.with_move_taken().sched_info == (ProcessSchedulerInfo {
            migrate_to: None,
            ..p.sched_info
        }),
        p.migration_target() == if p.flags.need_migrate {
            p.sched_info.migrate_to
        } else {
            None
        },
{
}

/// A task that is placed on a processor belongs to it, and if it is one of the fair class to the
/// fair run queue there, with its averages to be started afresh.
pub proof fn law_task_placed_on_a_processor(p: ProcessControlBlock, cpu: ProcessorId)
    ensures
        ({
            let q = p.placed_on(cpu);
            let old = p.sched_info.sched_entity;
            let new = q.sched_info.sched_entity;
            &&& q.sched_info == (ProcessSchedulerInfo { cpu, sched_entity: new, ..p.sched_info })
            &&& p.sched_info.policy == SchedPolicy::CFS ==> new == (FairSchedEntity {
                cfs_rq: cpu,
                cfs_group: None,
                last_update_time: 0,
                ..old
            })
            &&& p.sched_info.policy != SchedPolicy::CFS ==> new == old
            &&& q.flags == p.flags
            &&& q.ptrace_state == p.ptrace_state
        }),
{
}

/// Time goes forward only, and not while updates are skipped. All of it is divided: interrupts get
/// what they had since they were last looked at, but no more than there is, and tasks the rest,
/// which the load averages have yet to take in.
pub proof fn law_time_is_divided(rq: CpuRunQueue, sample: ClockSample)
    requires
        rq.clock_wf(),
    ensures
        ({
            let after = rq.clocked(sample);
            let skipping = rq.clock_updata_flags.bits & 0x02 == 0x02;
            &&& skipping || sample.clock < rq.clock ==> after == rq
            &&& !skipping && sample.clock >= rq.clock ==> {
                let passed = sample.clock - rq.clock;
                &&& after.clock == sample.clock
                &&& (after.clock_task - rq.clock_task) + (after.prev_irq_time - rq.prev_irq_time)
                    == passed
                &&& after.pelt_pending - rq.pelt_pending == after.clock_task - rq.clock_task
                &&& sample.irq_time >= rq.prev_irq_time && sample.irq_time - rq.prev_irq_time
                    <= passed ==> after.prev_irq_time == sample.irq_time
                &&& sample.irq_time >= rq.prev_irq_time && sample.irq_time - rq.prev_irq_time
                    > passed ==> after.clock_task == rq.clock_task
                &&& after == (CpuRunQueue {
                    clock: after.clock,
                    clock_task: after.clock_task,
                    prev_irq_time: after.prev_irq_time,
                    pelt_pending: after.pelt_pending,
                    ..rq
                })
            }
        }),
{
}

/// A pass of the scheduler takes the lock and brings the clocks up to date, unless a request to
/// skip that had been made for it, and from then on the clocks count as up to date.
pub proof fn law_pass_brings_the_clock_up_to_date(rq: CpuRunQueue, sample: ClockSample)
    requires
        rq.clock_wf(),
    ensures
        ({
            let after = crate::sched::schedule::entered(rq, sample);
            &&& after.lock.locked
            &&& after.clock_updata_flags.bits == 0x04
            &&& rq.clock_updata_flags.bits & 0x01 == 0x01 ==> after.clock == rq.clock
                && after.clock_task == rq.clock_task && after.prev_irq_time == rq.prev_irq_time
            &&& rq.clock_updata_flags.bits & 0x01 != 0x01 && sample.clock >= rq.clock
                ==> after.clock == sample.clock
            &&& after.nr_running == rq.nr_running
            &&& after.current == rq.current
            &&& after.cpu == rq.cpu
        }),
{
    crate::sched::flags::law_skip_request_takes_effect_once(rq.clock_updata_flags);
}

/// Tasks are counted one by one; a queue with two or more is overloaded, and no queue has less
/// than none. The same goes for tasks that wait for input or output.
pub proof fn law_tasks_are_counted(rq: CpuRunQueue, n: usize)
    requires
        rq.nr_running + n <= usize::MAX,
        rq.overload == (rq.nr_running >= 2),
    ensures
        rq.with_more_tasks(n).nr_running == rq.nr_running + n,
        rq.with_more_tasks(n).overload == (rq.nr_running + n >= 2),
        n <= rq.nr_running ==> rq.with_fewer_tasks(n).nr_running == rq.nr_running - n
            && rq.leaving(n) == n,
        n > rq.nr_running ==> rq.with_fewer_tasks(n).nr_running == 0 && rq.leaving(n)
            == rq.nr_running,
        rq.with_fewer_tasks(n).overload == (rq.nr_running >= n + 2),
        rq.nr_iowait > 0 ==> rq.iowait_decremented().nr_iowait == rq.nr_iowait - 1,
        rq.nr_iowait == 0 ==> rq.iowait_decremented().nr_iowait == 0,
        rq.load_tick() == (Action::GlobalLoadTick {
            cpu: rq.cpu,
            nr_running: rq.nr_running,
            nr_uninterruptible: rq.nr_uninterruptible,
        }),
{
}

/// A task that is taken off a queue is on none if it sleeps or is stopped, and else on its way to
/// another. If its wait had begun, and is not only being saved, the wait ends and is added to what
/// the task and the queue have waited, by the clock of the queue.
pub proof fn law_task_leaves_its_queue<K: SchedClasses>(
    state: RqState,
    t: TaskId,
    flags: DequeueFlag,
    after: RqState,
)
    requires
        state.wf(),
        state.pm.has(t),
        flags.bits & 0x08 == 0x08,
        state.deactivate::<K>(t, flags, ClockSample::unread(), after),
    ensures
        ({
            let p = state.pm.task(t);
            let q = after.pm.task(t);
            let old = p.sched_info.sched_stat;
            let new = q.sched_info.sched_stat;
            let waited = state.rq.clock.wrapping_sub(old.last_queued);
            &&& flags.bits & (0x01u8 | 0x10u8) != 0 ==> q.sched_info.on_rq == OnRq::Unqueued
            &&& flags.bits & (0x01u8 | 0x10u8) == 0 ==> q.sched_info.on_rq == OnRq::Migrating
            &&& flags.bits & 0x02 != 0x02 && old.last_queued > 0 ==> new.last_queued == 0
                && new.run_delay == old.run_delay.wrapping_add(waited)
                && after.rq.sched_info.run_delay == state.rq.sched_info.run_delay.wrapping_add(
                waited,
            )
            &&& flags.bits & 0x02 == 0x02 || old.last_queued == 0 ==> new == old
                && after.rq.sched_info == state.rq.sched_info
            &&& q.sched_info.state == p.sched_info.state
            &&& q.sched_info.cpu == p.sched_info.cpu
        }),
{
    let off = state.with_task(
        t,
        state.pm.task(t).with_on_rq(RqState::on_rq_after(flags)),
    );
    let ready = off.before_dequeue(t, flags, ClockSample::unread());
    assert(ready.pm.task(t).sched_info.on_rq == RqState::on_rq_after(flags));
    ready.lemma_spared(after, t);
}

/// A task that is put on a queue is on it, and its wait begins with the clock of the queue unless
/// it had begun before or is only being restored. The class is told when the task comes from
/// another queue.
pub proof fn law_task_joins_a_queue<K: SchedClasses>(
    state: RqState,
    t: TaskId,
    flags: EnqueueFlag,
    after: RqState,
)
    requires
        state.wf(),
        state.pm.has(t),
        state.activate_flags(t, flags).bits & 0x08 == 0x08,
        state.activate::<K>(t, flags, ClockSample::unread(), after),
    ensures
        ({
            let p = state.pm.task(t);
            let q = after.pm.task(t);
            let told = state.activate_flags(t, flags).bits;
            let old = p.sched_info.sched_stat;
            let new = q.sched_info.sched_stat;
            &&& told == if p.sched_info.on_rq == OnRq::Migrating {
                flags.bits | 0x40
            } else {
                flags.bits
            }
            &&& q.sched_info.on_rq == OnRq::Queued
            &&& told & 0x02 != 0x02 && old.last_queued == 0 ==> new.last_queued == state.rq.clock
                && new.run_delay == old.run_delay
            &&& told & 0x02 == 0x02 || old.last_queued != 0 ==> new == old
            &&& q.sched_info.state == p.sched_info.state
            &&& q.sched_info.cpu == p.sched_info.cpu
        }),
{
    let f = state.activate_flags(t, flags);
    let mid = choose|mid: RqState|
        state.activate_path::<K>(t, flags, ClockSample::unread(), mid, after);
    let ready = state.before_enqueue(t, f, ClockSample::unread());
    ready.lemma_spared(mid, t);
}

/// The running task of a queue that is asked to give up the processor is marked. Another processor
/// is interrupted for that, unless its task had been asked before and is not the idle one.
pub proof fn law_running_task_is_asked_to_go(state: RqState)
    requires
        state.has_curr(),
    ensures
        ({
            let t = state.rq.current->Some_0;
            let p = state.pm.task(t);
            let after = state.resched();
            &&& after.rq == state.rq
            &&& after.pm.tasks[t as int] == (ProcessControlBlock {
                flags: ProcessFlags { need_schedule: true, ..p.flags },
                ..p
            })
            &&& after.pm.actions == if state.rq.cpu != state.pm.cpu && (!p.flags.need_schedule
                || p.sched_info.policy == SchedPolicy::IDLE) {
                state.pm.actions.push(Action::ReschedIpi(state.rq.cpu))
            } else {
                state.pm.actions
            }
            &&& forall|u: TaskId|
                state.pm.has(u) && u != t ==> #[trigger] after.pm.tasks[u as int]
                    == state.pm.tasks[u as int]
        }),
{
}

/// The clock update of the next pass is skipped exactly if the running task is on its queue and
/// has to go.
pub proof fn law_clock_update_is_skipped(state: RqState)
    ensures
        ({
            let p = state.pm.task(state.rq.current->Some_0);
            let after = state.skip_requested();
            &&& after.pm == state.pm
            &&& after.rq == if p.sched_info.on_rq == OnRq::Queued && p.flags.need_schedule {
                CpuRunQueue {
                    clock_updata_flags: crate::sched::flags::ClockUpdataFlag {
                        bits: state.rq.clock_updata_flags.bits | 0x01,
                    },
                    ..state.rq
                }
            } else {
                state.rq
            }
        }),
{
}

/// A task of a class that goes before that of the running one makes it go, and one of a class that
/// goes behind leaves it alone; the clock is not touched for that. Within a class the class
/// decides, but the fair class not on behalf of another processor.
pub proof fn law_higher_class_preempts<K: SchedClasses>(
    state: RqState,
    t: TaskId,
    flags: WakeupFlags,
    after: RqState,
)
    requires
        state.has_curr(),
        state.pm.has(t),
    ensures
        ({
            let mine = state.pm.task(t).sched_info.policy;
            let other = state.pm.task(state.rq.current->Some_0).sched_info.policy;
            let before = |a: SchedPolicy, b: SchedPolicy|
                match a {
                    SchedPolicy::RT => b != SchedPolicy::RT,
                    SchedPolicy::FIFO => b == SchedPolicy::CFS || b == SchedPolicy::IDLE,
                    SchedPolicy::CFS => b == SchedPolicy::IDLE,
                    SchedPolicy::IDLE => false,
                };
            &&& state.preempt_decision::<K>(t, flags, after) && before(mine, other)
                ==> after.pm.task(state.rq.current->Some_0).flags.need_schedule && after.rq
                == state.rq
            &&& state.preempt_decision::<K>(t, flags, after) && before(other, mine) ==> after
                == state
            &&& state.remote_decision::<K>(t, flags, after) && before(mine, other)
                ==> after.pm.task(state.rq.current->Some_0).flags.need_schedule
            &&& state.remote_decision::<K>(t, flags, after) && mine == SchedPolicy::CFS && other
                == SchedPolicy::CFS ==> after == state
        }),
{
    law_running_task_is_asked_to_go(state);
    law_order_of_the_policies(state.pm.task(state.rq.current->Some_0).sched_info.policy);
    law_order_of_the_policies(state.pm.task(t).sched_info.policy);
}

/// A foreign processor whose running task has to go anyway is not looked at any further, but an
/// idle one is interrupted to see that it has to.
pub proof fn law_foreign_processor_that_has_to_switch<K: SchedClasses>(
    state: RqState,
    t: TaskId,
    flags: WakeupFlags,
    after: RqState,
)
    requires
        state.has_curr(),
        state.pm.task(state.rq.current->Some_0).flags.need_schedule,
        state.rq.cpu != state.pm.cpu,
        state.check_remote::<K>(t, flags, after),
    ensures
        state.pm.task(state.rq.current->Some_0).sched_info.policy != SchedPolicy::IDLE ==> after
            == state,
        state.pm.task(state.rq.current->Some_0).sched_info.policy == SchedPolicy::IDLE
            ==> after.pm.actions == state.pm.actions.push(Action::ReschedIpi(state.rq.cpu)),
{
}

/// A task out of the wake queue that has exited, is queued, or is what runs here is dropped, and
/// one that runs elsewhere goes back into the wake queue, behind those that are there.
pub proof fn law_tasks_that_are_not_woken<K: SchedClasses>(
    state: WakeState,
    t: TaskId,
    after: WakeState,
)
    requires
        state.wf(),
        state.pm.has(t),
        state.step::<K>(t, after),
    ensures
        ({
            let info = state.pm.task(t).sched_info;
            let stale = info.state is Exited || info.on_rq == OnRq::Queued || (info.on_cpu == Some(
                state.rq.cpu,
            ) && state.rq.current == Some(t));
            let waiting = state.sched.wakequeues[state.rq.cpu.id as int];
            &&& stale ==> after == state
            &&& !stale && info.on_cpu is Some ==> after.requeued && after.rq == state.rq
                && after.pm == state.pm && after.sched.wakequeues[state.rq.cpu.id as int]
                == waiting.push(t)
        }),
{
}

/// A task that is woken here belongs here and is on the queue. It counts as load in its sleep no
/// longer: this queue has one such sleeper less if it was one. If it waited for input or output,
/// the queue of the processor that it slept on has one less that does.
#[verifier::rlimit(40)]
pub proof fn law_task_is_woken<K: SchedClasses>(state: WakeState, t: TaskId, after: WakeState)
    requires
        state.wf(),
        state.pm.has(t),
        state.pm.task(t).sched_info.cpu.id < MAX_CPU_NUM,
        !(state.pm.task(t).sched_info.state is Exited),
        state.pm.task(t).sched_info.on_rq != OnRq::Queued,
        state.pm.task(t).sched_info.on_cpu is None,
        state.step::<K>(t, after),
    ensures
        ({
            let p = state.pm.task(t);
            let q = after.pm.task(t);
            let slept_on = p.sched_info.cpu;
            let here = slept_on == state.rq.cpu;
            let less = |n: usize|
                if n == 0 {
                    0int
                } else {
                    n - 1
                };
            &&& q.sched_info.on_rq == OnRq::Queued
            &&& q.sched_info.cpu == state.rq.cpu
            &&& q.sched_info.state == p.sched_info.state
            &&& !q.flags.sched_contributes_to_load
            &&& after.rq.nr_uninterruptible == if p.flags.sched_contributes_to_load {
                state.rq.nr_uninterruptible.wrapping_sub(1)
            } else {
                state.rq.nr_uninterruptible
            }
            &&& after.rq.nr_iowait == if here && p.flags.in_iowait {
                less(state.rq.nr_iowait)
            } else {
                state.rq.nr_iowait as int
            }
            &&& !here ==> after.sched.rqs[slept_on.id as int].nr_iowait == if p.flags.in_iowait {
                less(state.sched.rqs[slept_on.id as int].nr_iowait)
            } else {
                state.sched.rqs[slept_on.id as int].nr_iowait as int
            }
            &&& here ==> after.sched == state.sched
            &&& after.requeued == state.requeued
        }),
{
    assert(!state.is_stale(t));
    let (ready, mid) = choose|ready: RqState, mid: RqState|
        state.wake_path::<K>(t, ready, mid, after);
    lemma_accounted(state, t);
    lemma_put_on_queue::<K>(
        state.accounted(t).here(),
        t,
        state.migrates(t),
        ready,
        mid,
        after.here(),
    );
}

/// What the books say when they have been set right for a task that is woken.
#[verifier::rlimit(40)]
proof fn lemma_accounted(state: WakeState, t: TaskId)
    requires
        state.wf(),
        state.pm.has(t),
        state.pm.task(t).sched_info.cpu.id < MAX_CPU_NUM,
    ensures
        ({
            let p = state.pm.task(t);
            let done = state.accounted(t);
            let q = done.pm.task(t);
            let slept_on = p.sched_info.cpu;
            let here = slept_on == state.rq.cpu;
            let less = |n: usize|
                if n == 0 {
                    0int
                } else {
                    n - 1
                };
            &&& done.here().wf()
            &&& done.here().has_curr()
            &&& q.sched_info.cpu == state.rq.cpu
            &&& q.sched_info.state == p.sched_info.state
            &&& !q.flags.sched_contributes_to_load
            &&& done.rq.nr_uninterruptible == if p.flags.sched_contributes_to_load {
                state.rq.nr_uninterruptible.wrapping_sub(1)
            } else {
                state.rq.nr_uninterruptible
            }
            &&& done.rq.nr_iowait == if here && p.flags.in_iowait {
                less(state.rq.nr_iowait)
            } else {
                state.rq.nr_iowait as int
            }
            &&& !here ==> done.sched.rqs[slept_on.id as int].nr_iowait == if p.flags.in_iowait {
                less(state.sched.rqs[slept_on.id as int].nr_iowait)
            } else {
                state.sched.rqs[slept_on.id as int].nr_iowait as int
            }
            &&& here ==> done.sched == state.sched
        }),
{
    let p = state.pm.task(t);
    let moved = p.placed_on(state.rq.cpu);
    p.lemma_woken();
    moved.lemma_woken();
    assert(p.woken().sched_info == p.sched_info && moved.woken().sched_info == moved.sched_info);
    assert(!p.woken().flags.sched_contributes_to_load
        && !moved.woken().flags.sched_contributes_to_load);
    assert(moved.sched_info.state == p.sched_info.state && moved.sched_info.cpu == state.rq.cpu
        && moved.sighand == p.sighand);
    assert(state.accounted(t).pm.task(t) == state.woken_task(t));
}

/// What the books say when a task has been put on the queue after that.
#[verifier::rlimit(40)]
proof fn lemma_put_on_queue<K: SchedClasses>(
    state: RqState,
    t: TaskId,
    migrated: bool,
    ready: RqState,
    mid: RqState,
    after: RqState,
)
    requires
        state.wf(),
        state.has_curr(),
        state.pm.has(t),
        state.averages_set::<K>(state.never_ran(t), t, ready),
        ready.activate::<K>(
            t,
            if migrated {
                (EnqueueFlag {
                    bits: EnqueueFlag::ENQUEUE_WAKEUP | EnqueueFlag::ENQUEUE_NOCLOCK,
                }).with(EnqueueFlag::ENQUEUE_MIGRATED)
            } else {
                EnqueueFlag { bits: EnqueueFlag::ENQUEUE_WAKEUP | EnqueueFlag::ENQUEUE_NOCLOCK }
            },
            ClockSample::unread(),
            mid,
        ),
        mid.check_preempt::<K>(
            t,
            WakeupFlags {
                bits: if migrated {
                    WakeupFlags::WF_MIGRATED
                } else {
                    0
                },
            },
            after,
        ),
    ensures
        after.pm.task(t).sched_info.on_rq == OnRq::Queued,
        after.pm.task(t).sched_info.cpu == state.pm.task(t).sched_info.cpu,
        after.pm.task(t).sched_info.state == state.pm.task(t).sched_info.state,
        after.pm.task(t).flags.sched_contributes_to_load == state.pm.task(
            t,
        ).flags.sched_contributes_to_load,
        after.rq.nr_uninterruptible == state.rq.nr_uninterruptible,
        after.rq.nr_iowait == state.rq.nr_iowait,
{
    let flags = if migrated {
        (EnqueueFlag { bits: EnqueueFlag::ENQUEUE_WAKEUP | EnqueueFlag::ENQUEUE_NOCLOCK }).with(
            EnqueueFlag::ENQUEUE_MIGRATED,
        )
    } else {
        EnqueueFlag { bits: EnqueueFlag::ENQUEUE_WAKEUP | EnqueueFlag::ENQUEUE_NOCLOCK }
    };
    let wake_flags = WakeupFlags {
        bits: if migrated {
            WakeupFlags::WF_MIGRATED
        } else {
            0
        },
    };
    state.lemma_spares_self();
    state.lemma_spared(ready, t);
    crate::sched::wake::lemma_noclock_stays();
    lemma_activated::<K>(ready, t, flags, mid);
    lemma_checked::<K>(mid, t, wake_flags, after);
    ready.pm.task(t).lemma_kept(mid.pm.task(t));
    mid.lemma_spared(after, t);
}

/// What joining a queue leaves alone.
#[verifier::rlimit(40)]
proof fn lemma_activated<K: SchedClasses>(
    state: RqState,
    t: TaskId,
    flags: EnqueueFlag,
    after: RqState,
)
    requires
        state.wf(),
        state.pm.has(t),
        state.activate_flags(t, flags).contains(EnqueueFlag::ENQUEUE_NOCLOCK),
        state.activate::<K>(t, flags, ClockSample::unread(), after),
    ensures
        after.wf(),
        after.pm.tasks.len() == state.pm.tasks.len(),
        after.pm.task(t).sched_info.on_rq == OnRq::Queued,
        state.pm.task(t).kept_by_queueing(after.pm.task(t)),
        state.rq.kept_by_queueing(after.rq),
{
    let f = state.activate_flags(t, flags);
    let mid = choose|mid: RqState|
        state.activate_path::<K>(t, flags, ClockSample::unread(), mid, after);
    let ready = state.before_enqueue(t, f, ClockSample::unread());
    let p = state.pm.task(t);
    let p1 = ready.pm.task(t);
    p.lemma_kept_self();
    if p1 != p {
        p.lemma_kept_stat(p1.sched_info.sched_stat);
        assert(p1 == p.with_sched_stat(p1.sched_info.sched_stat));
    }
    ready.lemma_spared(mid, t);
    p.lemma_kept_on(p1, mid.pm.task(t));
    let p2 = mid.pm.task(t);
    assert(p2.kept_by_queueing(p2.with_on_rq(OnRq::Queued))) by {
        reveal(ProcessControlBlock::kept_by_queueing);
    }
    p.lemma_kept_on(p2, after.pm.task(t));
}

/// Comparing a task with the running one touches no more than a class may.
#[verifier::rlimit(40)]
proof fn lemma_checked<K: SchedClasses>(
    state: RqState,
    t: TaskId,
    flags: WakeupFlags,
    after: RqState,
)
    requires
        state.wf(),
        state.has_curr(),
        state.check_preempt::<K>(t, flags, after),
    ensures
        state.spares(after),
{
    let mid = choose|mid: RqState| state.check_preempt_path::<K>(t, flags, mid, after);
    state.lemma_spares_self();
    if state.policy(t) != state.policy(state.curr()) && state.policy(t).outranks(
        state.policy(state.curr()),
    ) {
        lemma_resched(state);
    }
    assert(state.spares(mid));
    state.lemma_spared(mid, state.curr());
    let end = mid.skip_requested();
    mid.pm.task(mid.pm.current).lemma_kept_self();
    mid.lemma_spares_step(mid.pm.current, mid.pm.task(mid.pm.current), end.rq);
    assert(mid.pm.with_task(mid.pm.current, mid.pm.task(mid.pm.current)).tasks =~= mid.pm.tasks);
    assert(end == (RqState {
        rq: end.rq,
        pm: mid.pm.with_task(mid.pm.current, mid.pm.task(mid.pm.current)),
    }));
    state.lemma_spares(mid, end);
}

/// Asking the running task to go touches no more than a class may.
proof fn lemma_resched(state: RqState)
    requires
        state.wf(),
        state.has_curr(),
    ensures
        state.spares(state.resched()),
{
    let t = state.curr();
    let p = state.pm.task(t);
    let q = p.with_flags(p.flags.with_need_schedule(true));
    assert(p.spared_by_class(q)) by {
        reveal(ProcessControlBlock::kept_by_queueing);
    }
    state.lemma_spares_step(t, q, state.rq);
    let asked = state.asked();
    assert(asked == (RqState { rq: state.rq, pm: state.pm.with_task(t, q) }));
    assert(asked.wf());
    asked.lemma_spares_action(Action::ReschedIpi(state.rq.cpu));
    assert(asked.with_action(Action::ReschedIpi(state.rq.cpu)) == (RqState {
        rq: asked.rq,
        pm: asked.pm.with_action(Action::ReschedIpi(state.rq.cpu)),
    }));
    state.lemma_spares(asked, asked.with_action(Action::ReschedIpi(state.rq.cpu)));
}

/// A new task goes to the processor that was selected, or stays here if none was. It can run, is
/// not about to sleep, and belongs there. If that is another processor the task waits in the wake
/// queue there, behind the others, and the processor knows of it.
pub proof fn law_new_task_goes_where_selected(
    sched: SchedCoreView,
    pm: ProcessManagerView,
    t: TaskId,
    selected: ProcessorId,
    cpu: ProcessorId,
)
    requires
        sched.wf(),
        cpu.id < MAX_CPU_NUM,
    ensures
        selected.id == 0xffff_ffff ==> crate::sched::wake::fork_target(pm, selected) == pm.cpu,
        selected.id != 0xffff_ffff ==> crate::sched::wake::fork_target(pm, selected) == selected,
        ({
            let q = crate::sched::wake::new_task(pm, t, cpu);
            &&& q.sched_info.state == ProcessState::Runnable
            &&& !q.sched_info.mark_sleep
            &&& q.sched_info.cpu == cpu
            &&& q.sched_info.on_rq == pm.task(t).sched_info.on_rq
            &&& q.flags == pm.task(t).flags
        }),
        ({
            let after = sched.with_waiting(cpu, t);
            &&& after.wakequeues[cpu.id as int] == sched.wakequeues[cpu.id as int].push(t)
            &&& after.rqs[cpu.id as int] == (CpuRunQueue {
                ttwu_pending: true,
                ..sched.rqs[cpu.id as int]
            })
        }),
{
}

/// A processor is balanced after a tick exactly if it has domains, the time has come and the
/// balancer wants to, as an idle one if it has no task. The lock is given back before that is
/// noted, and interrupts are what they were.
pub proof fn law_when_a_tick_balances(
    rq: CpuRunQueue,
    jiffies: u64,
    wanted: bool,
    pm: ProcessManagerView,
    was_enabled: bool,
)
    ensures
        ({
            let due = rq.balance_due(jiffies, wanted);
            let guard = crate::libs::spinlock::SpinLockGuard {
                irq_flag: Some(crate::libs::spinlock::IrqFlagsGuard { was_enabled }),
            };
            let after = crate::sched::tick::tick_done(pm, guard, due);
            &&& due is Some <==> rq.sched_domain is Some && jiffies >= rq.next_balance && wanted
            &&& due matches Some((cpu, idle)) ==> cpu == rq.cpu && (idle == CpuIdleType::Idle
                <==> rq.nr_running == 0) && (idle == CpuIdleType::NotIdle <==> rq.nr_running != 0)
            &&& after.irq_enabled == was_enabled
            &&& after.tasks == pm.tasks
            &&& after.actions == match due {
                Some((cpu, idle)) => pm.actions.push(Action::RebalanceDomains { cpu, idle }),
                None => pm.actions,
            }
        }),
{
}

/// A real-time task that gives way is asked to go, the idle task does nothing, and a task of the
/// other classes does as its class has it.
pub proof fn law_how_a_task_gives_way<K: SchedClasses>(state: RqState, after: RqState)
    requires
        state.has_curr(),
    ensures
        state.class_yield::<K>(SchedPolicy::IDLE, after) ==> after == state,
        state.class_yield::<K>(SchedPolicy::RT, after) ==> after.pm.task(
            state.rq.current->Some_0,
        ).flags.need_schedule && after.rq == state.rq,
{
    law_running_task_is_asked_to_go(state);
}

/// When a task has given way the interrupts are what they were before.
pub proof fn law_giving_way_restores_interrupts(pm: ProcessManagerView, was_enabled: bool)
    ensures
        crate::sched::tick::yield_released(pm, was_enabled).irq_enabled == was_enabled,
        crate::sched::tick::yield_released(pm, was_enabled).tasks == pm.tasks,
        crate::sched::tick::yield_released(pm, was_enabled).actions == pm.actions,
{
}

/// Tasks may be placed on a processor that runs tasks, and on any while the system comes up or the
/// processors have not been counted. A processor is idle if its idle task is there and runs, and
/// nothing is queued or waits to be woken.
pub proof fn law_processors_for_tasks(
    sched: SchedCoreView,
    pm: ProcessManagerView,
    cpu: ProcessorId,
    idle: TaskId,
)
    requires
        cpu.id < MAX_CPU_NUM,
        sched.rqs[cpu.id as int].idle == Some(idle),
        pm.has(idle),
        pm.task(idle).alive,
    ensures
        sched.accepts_tasks(cpu) <==> sched.smp.online.bits@[cpu.id as int]
            || !sched.smp.initialized || sched.system_state
            != crate::sched::percpu::SystemState::Running,
        sched.is_idle_cpu(pm, cpu) <==> {
            let rq = sched.rqs[cpu.id as int];
            rq.current_ptr == Some(idle) && rq.nr_running == 0 && !rq.ttwu_pending
        },
        forall|allowed: crate::smp::cpu::CpuMask| #[trigger]
            sched.is_candidate(allowed, cpu.id as int) <==> allowed.bits@[cpu.id as int]
                && sched.idle_cpus.bits@[cpu.id as int] && (!sched.smp.initialized
                || sched.smp.online.bits@[cpu.id as int]),
{
}

/// The sleepers that wait for input or output are counted over the processors that are there, each
/// for itself.
pub proof fn law_sleepers_of_all_processors(sched: SchedCoreView, n: int)
    requires
        0 <= n < MAX_CPU_NUM,
    ensures
        sched.nr_iowait_below(0) == 0,
        sched.nr_iowait_below(n + 1) - sched.nr_iowait_below(n) == if sched.smp.present.bits@[n] {
            sched.rqs[n].nr_iowait as int
        } else {
            0
        },
{
}

/// When a task of the fair class moves away, no task runs any more in the fair run queue that it
/// belonged to: that of its group on the processor, or that of the processor itself.
pub proof fn law_fair_queue_forgets_its_task(
    state: crate::sched::schedule::PassState,
    e: FairSchedEntity,
)
    requires
        state.sched.wf(),
        e.fits(state.sched.task_groups.len()),
        e.parent is None,
    ensures
        ({
            let after = state.levels_forgotten(e);
            &&& after.pm == state.pm
            &&& e.cfs_group is None && e.cfs_rq == state.rq.cpu ==> after.rq == (CpuRunQueue {
                cfs: CfsRunQueue { current: None, ..state.rq.cfs },
                ..state.rq
            })
            &&& e.cfs_group is None && e.cfs_rq != state.rq.cpu ==> after.rq == state.rq
                && after.sched.rqs[e.cfs_rq.id as int].cfs.current is None
            &&& e.cfs_group matches Some(g) ==> after.rq == state.rq
                && after.sched.task_groups[g as int].cfs[e.cfs_rq.id as int].current is None
        }),
{
    if let Some(g) = e.cfs_group {
        crate::sched::percpu::lemma_group_forgotten(state.sched.task_groups, g as int, e.cfs_rq);
    }
}

/// Each policy has its class: what is done to a task is done by the class of its policy, and there
/// is none for real-time tasks.
pub proof fn law_each_policy_has_its_class<K: SchedClasses>(
    state: RqState,
    t: TaskId,
    on: EnqueueFlag,
    off: DequeueFlag,
    wake: WakeupFlags,
    after: RqState,
)
    ensures
        state.class_enqueue::<K>(SchedPolicy::CFS, t, on, after) ==> K::Fair::enqueue_rel(
            state,
            t,
            on,
            after,
        ),
        state.class_enqueue::<K>(SchedPolicy::FIFO, t, on, after) ==> K::Fifo::enqueue_rel(
            state,
            t,
            on,
            after,
        ),
        state.class_enqueue::<K>(SchedPolicy::IDLE, t, on, after) ==> K::Idle::enqueue_rel(
            state,
            t,
            on,
            after,
        ),
        state.class_dequeue::<K>(SchedPolicy::CFS, t, off, after) ==> K::Fair::dequeue_rel(
            state,
            t,
            off,
            after,
        ),
        state.class_dequeue::<K>(SchedPolicy::FIFO, t, off, after) ==> K::Fifo::dequeue_rel(
            state,
            t,
            off,
            after,
        ),
        state.class_dequeue::<K>(SchedPolicy::IDLE, t, off, after) ==> K::Idle::dequeue_rel(
            state,
            t,
            off,
            after,
        ),
        state.class_check_preempt::<K>(SchedPolicy::CFS, t, wake, after)
            ==> K::Fair::check_preempt_current_rel(state, t, wake, after),
        state.class_check_preempt::<K>(SchedPolicy::FIFO, t, wake, after)
            ==> K::Fifo::check_preempt_current_rel(state, t, wake, after),
        state.class_check_preempt::<K>(SchedPolicy::IDLE, t, wake, after)
            ==> K::Idle::check_preempt_current_rel(state, t, wake, after),
        state.class_put_prev::<K>(SchedPolicy::CFS, t, after) ==> K::Fair::put_prev_task_rel(
            state,
            t,
            after,
        ),
        state.class_put_prev::<K>(SchedPolicy::FIFO, t, after) ==> K::Fifo::put_prev_task_rel(
            state,
            t,
            after,
        ),
        state.class_put_prev::<K>(SchedPolicy::IDLE, t, after) ==> K::Idle::put_prev_task_rel(
            state,
            t,
            after,
        ),
        state.class_tick::<K>(SchedPolicy::CFS, t, after) ==> K::Fair::tick_rel(
            state,
            t,
            false,
            after,
        ),
        state.class_tick::<K>(SchedPolicy::FIFO, t, after) ==> K::Fifo::tick_rel(
            state,
            t,
            false,
            after,
        ),
        state.class_tick::<K>(SchedPolicy::IDLE, t, after) ==> K::Idle::tick_rel(
            state,
            t,
            false,
            after,
        ),
        state.class_fork::<K>(SchedPolicy::CFS, t, after) ==> K::Fair::task_fork_rel(
            state,
            t,
            after,
        ),
        state.class_fork::<K>(SchedPolicy::FIFO, t, after) ==> K::Fifo::task_fork_rel(
            state,
            t,
            after,
        ),
        state.class_fork::<K>(SchedPolicy::IDLE, t, after) ==> after == state,
        state.class_yield::<K>(SchedPolicy::CFS, after) ==> K::Fair::yield_task_rel(state, after),
        state.class_yield::<K>(SchedPolicy::FIFO, after) ==> K::Fifo::yield_task_rel(state, after),
{
}

/// What the classes are told when a task changes its queue: the class of a task that sleeps of the
/// sleep, that of one that moves of the move; none has to read the clock. A task of a class that
/// is put off the processor is told to its class, and one of the fair class that comes next to
/// the fair class.
pub proof fn law_what_the_classes_are_told<K: SchedClasses>(
    state: RqState,
    t: TaskId,
    next: TaskId,
    after: RqState,
)
    requires
        state.pm.has(t),
    ensures
        state.pm.task(t).sched_info.policy == SchedPolicy::CFS && state.pm.task(t).sched_info.on_rq
            == OnRq::Queued && state.leave::<K>(t, after) ==> exists|ready: RqState|
            #[trigger] K::Fair::dequeue_rel(ready, t, DequeueFlag { bits: 0x09 }, after),
        state.pm.task(t).sched_info.policy == SchedPolicy::FIFO && state.pm.task(
            t,
        ).sched_info.on_rq == OnRq::Queued && state.leave::<K>(t, after) ==> exists|ready: RqState|
            #[trigger] K::Fifo::dequeue_rel(ready, t, DequeueFlag { bits: 0x09 }, after),
        state.pick_next::<K>(t, next, after) && next != t && state.pm.task(t).sched_info.policy
            == SchedPolicy::CFS && state.pm.task(t).sched_info.on_cpu == Some(state.rq.cpu)
            && state.wf() ==> exists|s2: RqState, s3: RqState|
            #[trigger] K::Fair::put_prev_task_rel(s2, t, s3),
        state.pick_next::<K>(t, next, after) && next != t && state.pm.task(t).sched_info.policy
            == SchedPolicy::FIFO && state.pm.task(t).sched_info.on_cpu == Some(state.rq.cpu)
            && state.wf() ==> exists|s2: RqState, s3: RqState|
            #[trigger] K::Fifo::put_prev_task_rel(s2, t, s3),
        state.pick_next::<K>(t, next, after) && next != t && state.pm.task(next).sched_info.policy
            == SchedPolicy::CFS ==> exists|s3: RqState|
            #[trigger] K::Fair::set_next_task_rel(s3, next, after),
{
    if state.pick_next::<K>(t, next, after) {
        let (fifo_picked, s1, picked, s2, s3) = choose|
            fifo_picked: Option<TaskId>,
            s1: RqState,
            picked: Option<TaskId>,
            s2: RqState,
            s3: RqState,
        | state.pick_path::<K>(t, fifo_picked, s1, picked, s2, s3, next, after);
        if state.wf() {
            state.lemma_spares_self();
            assert(state.spares(s1));
            state.lemma_spared(s1, t);
            s1.lemma_spares_self();
            assert(s1.spares(s2));
            s1.lemma_spared(s2, t);
        }
    }
}

/// The bits of the flag words.
pub proof fn law_bits_of_the_flag_words()
    ensures
        EnqueueFlag::ENQUEUE_WAKEUP == 0x01,
        EnqueueFlag::ENQUEUE_RESTORE == 0x02,
        EnqueueFlag::ENQUEUE_MOVE == 0x04,
        EnqueueFlag::ENQUEUE_NOCLOCK == 0x08,
        EnqueueFlag::ENQUEUE_MIGRATED == 0x40,
        EnqueueFlag::ENQUEUE_INITIAL == 0x80,
        DequeueFlag::DEQUEUE_SLEEP == 0x01,
        DequeueFlag::DEQUEUE_SAVE == 0x02,
        DequeueFlag::DEQUEUE_MOVE == 0x04,
        DequeueFlag::DEQUEUE_NOCLOCK == 0x08,
        DequeueFlag::DEQUEUE_STOPPED == 0x10,
        WakeupFlags::WF_EXEC == 0x02,
        WakeupFlags::WF_FORK == 0x04,
        WakeupFlags::WF_TTWU == 0x08,
        WakeupFlags::WF_SYNC == 0x10,
        WakeupFlags::WF_MIGRATED == 0x20,
        WakeupFlags::WF_CURRENT_CPU == 0x40,
{
}

/// A tick is noted to the load with the tasks of the queue and its uninterruptible sleepers, after
/// the class of the running task has taken it and before the wake queue is emptied.
pub proof fn law_order_of_a_tick<K: SchedClasses>(
    sched: SchedCoreView,
    pm: ProcessManagerView,
    sample: ClockSample,
    ticked: RqState,
    last: WakeState,
    rq: CpuRunQueue,
)
    requires
        crate::sched::tick::tick_path::<K>(sched, pm, sample, ticked, last, rq),
    ensures
        ({
            let t = sched.rqs[pm.cpu.id as int].current->Some_0;
            let entry = RqState {
                rq: sched.rqs[pm.cpu.id as int].with_lock(true).clocked(sample),
                pm: pm.irq_off().preempt_disabled(),
            };
            let start = WakeState {
                rq: ticked.rq,
                sched: SchedCoreView {
                    wakequeues: sched.wakequeues.update(ticked.rq.cpu.id as int, Seq::empty()),
                    ..sched
                },
                pm: ProcessManagerView {
                    actions: ticked.pm.actions.push(
                        Action::GlobalLoadTick {
                            cpu: ticked.rq.cpu,
                            nr_running: ticked.rq.nr_running,
                            nr_uninterruptible: ticked.rq.nr_uninterruptible,
                        },
                    ),
                    ..ticked.pm
                },
                requeued: false,
            };
            &&& pm.task(t).sched_info.policy == SchedPolicy::CFS ==> K::Fair::tick_rel(
                entry,
                t,
                false,
                ticked,
            )
            &&& pm.task(t).sched_info.policy == SchedPolicy::FIFO ==> K::Fifo::tick_rel(
                entry,
                t,
                false,
                ticked,
            )
            &&& start.steps::<K>(sched.wakequeues[ticked.rq.cpu.id as int], last)
            &&& last.requeued ==> rq == last.rq
            &&& !last.requeued ==> rq == (CpuRunQueue { ttwu_pending: false, ..last.rq })
        }),
{
    let rq0 = sched.rqs[pm.cpu.id as int];
    assert(rq0.with_lock(true).clocked(sample).current == rq0.current);
}

/// A pass that switches leaves preemption disabled for the one that finishes the switch, and a pass
/// that does not enables it again. The queue is put back as the pass left it.
pub proof fn law_pass_and_preemption<K: SchedClasses>(
    sched: SchedCoreView,
    pm: ProcessManagerView,
    sched_mod: crate::sched::flags::SchedMode,
    sample: ClockSample,
    switched: bool,
    next: TaskId,
    after: crate::sched::schedule::PassState,
    sched_after: SchedCoreView,
    pm_after: ProcessManagerView,
)
    requires
        after.sched.rqs.len() == MAX_CPU_NUM,
        pm.cpu.id < MAX_CPU_NUM,
        crate::sched::schedule::schedule_once::<K>(
            sched,
            pm,
            sched_mod,
            sample,
            switched,
            next,
            after,
            sched_after,
            pm_after,
        ),
    ensures
        switched <==> sched.rqs[pm.cpu.id as int].current != Some(next),
        switched ==> pm_after == after.pm,
        !switched ==> pm_after == after.pm.preempt_enabled(),
        sched_after.rqs[pm.cpu.id as int] == after.rq,
        crate::sched::schedule::schedule_rel::<K>(
            sched,
            pm.preempt_disabled(),
            sched_mod,
            sample,
            next,
            after,
        ),
{
}

/// A forked task starts without utilisation, in the fair run queue and the group of before, with
/// averages and a weight as the fair class has them for its static priority.
pub proof fn law_forked_task_starts_afresh<K: SchedClasses>(
    before: FairSchedEntity,
    static_prio: i32,
    after: FairSchedEntity,
)
    requires
        crate::sched::fork::forked_entity::<K>(before, static_prio, after),
    ensures
        after.util_avg == 0,
        after.cfs_rq == before.cfs_rq,
        after.cfs_group == before.cfs_group,
        after.parent == before.parent,
        K::Fair::load_weight_rel(static_prio, after.load),
        K::Fair::init_runnable_average_rel(
            before,
            FairSchedEntity { load: before.load, ..after },
        ),
{
}

/// The queue of a processor that has no task yet: everything is at 0, and it is balanced at the
/// next tick and its load taken five seconds later.
pub proof fn law_queue_without_tasks(rq: CpuRunQueue, cpu: ProcessorId, now: u64)
    requires
        now + 1251 <= u64::MAX,
        rq.is_fresh(cpu, now),
    ensures
        rq.cpu == cpu,
        !rq.lock.locked,
        rq.clock == 0 && rq.clock_task == 0 && rq.prev_irq_time == 0 && rq.pelt_pending == 0,
        rq.clock_updata_flags.bits == 0,
        rq.nr_running == 0 && rq.nr_uninterruptible == 0 && rq.nr_iowait == 0,
        !rq.overload,
        rq.next_balance == now + 1,
        rq.calc_load_update == now + 1251,
        rq.calc_load_active == 0,
        rq.current is None && rq.current_ptr is None && rq.idle is None,
        !rq.ttwu_pending,
        rq.sched_domain is None,
        rq.fifo.nr_running == 0,
        rq.cfs.current is None && rq.cfs.h_nr_running == 0,
{
}

/// Nothing in user space shows of the parameters of a task but its priority.
pub proof fn law_parameter_shows_the_priority(
    param: crate::sched::getparam::PosixSchedParam,
    priority: int,
)
    requires
        param.shows(priority),
    ensures
        param.sched_priority == priority,
        param.__reserved1 == 0,
        param.__reserved3 == 0,
        forall|i: int| 0 <= i < 4 ==> param.__reserved2@[i] == 0,
{
}

/// The fair run queues of the groups above are told level by level, up to the highest.
pub proof fn law_fair_queues_forget_level_by_level(
    state: crate::sched::schedule::PassState,
    e: FairSchedEntity,
    p: crate::sched::entity::GroupEntity,
)
    requires
        state.sched.wf(),
        e.fits(state.sched.task_groups.len()),
        e.parent == Some(p),
    ensures
        state.levels_forgotten(e) == state.levels_forgotten(
            FairSchedEntity { parent: None, ..e },
        ).levels_forgotten(state.sched.task_groups[p.group as int].entitys[p.cpu.id as int]),
{
    crate::sched::percpu::lemma_group_entity(state.sched.task_groups, p);
    if let Some(g) = e.cfs_group {
        crate::sched::percpu::lemma_group_forgotten(state.sched.task_groups, g as int, e.cfs_rq);
    }
}

/// A task that is woken is put on the queue as one that is woken, and the clock need not be read
/// for that; one that comes from another processor is marked so for its class, and when it is
/// compared with the running task. A new task is compared as one that was forked.
pub proof fn law_how_woken_tasks_are_queued<K: SchedClasses>(
    state: WakeState,
    t: TaskId,
    entry: RqState,
    ready: RqState,
    mid: RqState,
    end: RqState,
)
    ensures
        state.pm.task(t).sched_info.cpu == state.rq.cpu ==> state.enqueue_flags(t).bits == 0x01u8
            | 0x08u8 && state.wake_flags(t).bits == 0,
        state.pm.task(t).sched_info.cpu != state.rq.cpu ==> state.enqueue_flags(t).bits == (0x01u8
            | 0x08u8) | 0x40u8 && state.wake_flags(t).bits == 0x20,
        crate::sched::wake::new_task_path::<K>(entry, t, ready, mid, end)
            ==> K::Fair::post_init_util_avg_rel(entry, t, ready) && ready.activate::<K>(
            t,
            EnqueueFlag { bits: 0x08 },
            ClockSample::unread(),
            mid,
        ) && mid.check_preempt::<K>(t, WakeupFlags { bits: 0x04 }, end),
{
}

} // verus!
