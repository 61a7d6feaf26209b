//! The scheduling of tasks that are forked, and of tasks that are moved.
use crate::error::SystemError;
use crate::process::action::Action;
use crate::process::manager::{ProcessManager, ProcessManagerView};
use crate::process::pcb::{ProcessControlBlock, TaskId};
use crate::sched::entity::{FairSchedEntity, ProcessSchedulerInfo};
use crate::sched::percpu::{SchedCore, __set_task_cpu, cpu_rq, send_resched_ipi};
use crate::sched::policy::{OnRq, SchedPolicy};
use crate::sched::prio::PrioUtil;
use crate::sched::scheduler::{FairScheduler, RqState, SchedClasses, Scheduler};
use crate::smp::cpu::{ProcessorId, MAX_CPU_NUM};
use vstd::prelude::*;

verus! {

impl ProcessControlBlock {
    pub open spec fn spec_with_prios_of(
        &self,
        parent: ProcessSchedulerInfo,
    ) -> ProcessControlBlock {
        ProcessControlBlock {
            sched_info: ProcessSchedulerInfo {
                prio: parent.normal_prio,
                static_prio: parent.static_prio,
                normal_prio: parent.normal_prio,
                rt_priority: parent.rt_priority,
                ..self.sched_info
            },
            ..*self
        }
    }

    /// The task with the priorities of its parent, not counting what the parent has
    /// been lent.
    #[verifier::when_used_as_spec(spec_with_prios_of)]
    pub fn with_prios_of(&self, parent: ProcessSchedulerInfo) -> (pcb: ProcessControlBlock)
        ensures
            pcb == self.with_prios_of(parent),
    {
        ProcessControlBlock {
            sched_info: ProcessSchedulerInfo {
                prio: parent.normal_prio,
                static_prio: parent.static_prio,
                normal_prio: parent.normal_prio,
                rt_priority: parent.rt_priority,
                ..self.sched_info
            },
            ..*self
        }
    }

    pub open spec fn spec_with_policy(
        &self,
        policy: SchedPolicy,
        sched_entity: FairSchedEntity,
    ) -> ProcessControlBlock {
        ProcessControlBlock {
            sched_info: ProcessSchedulerInfo { policy, sched_entity, ..self.sched_info },
            ..*self
        }
    }

    /// The task with a policy, and with what the fair class is to keep of it.
    #[verifier::when_used_as_spec(spec_with_policy)]
    pub fn with_policy(
        &self,
        policy: SchedPolicy,
        sched_entity: FairSchedEntity,
    ) -> (pcb: ProcessControlBlock)
        ensures
            pcb == self.with_policy(policy, sched_entity),
    {
        ProcessControlBlock {
            sched_info: ProcessSchedulerInfo { policy, sched_entity, ..self.sched_info },
            ..*self
        }
    }

    pub open spec fn spec_asked_to_move(&self, dest: ProcessorId) -> ProcessControlBlock {
        let p = self.with_migrate_to(Some(dest));
        p.with_flags(p.flags.with_need_migrate(true).with_need_schedule(true))
    }

    /// The task as it has been asked to move to a processor.
    #[verifier::when_used_as_spec(spec_asked_to_move)]
    pub fn asked_to_move(&self, dest: ProcessorId) -> (pcb: ProcessControlBlock)
        ensures
            pcb == self.asked_to_move(dest),
    {
        let p = self.with_migrate_to(Some(dest));
        p.with_flags(p.flags.with_need_migrate(true).with_need_schedule(true))
    }
}

/// The policy of the child of a task: a real-time priority hands the policy of the
/// parent on, any other one makes the child a task of the fair class.
pub open spec fn fork_policy(parent: ProcessSchedulerInfo) -> SchedPolicy {
    if PrioUtil::rt_prio(parent.normal_prio) {
        parent.policy
    } else {
        SchedPolicy::CFS
    }
}

/// What the fair class keeps of a forked task: the averages are set up first, then the
/// weight is set, which goes by the static priority.
pub open spec fn forked_entity<K: SchedClasses>(
    before: FairSchedEntity,
    static_prio: i32,
    after: FairSchedEntity,
) -> bool {
    &&& K::Fair::load_weight_rel(static_prio, after.load)
    &&& after.util_avg == 0
    &&& after.cfs_rq == before.cfs_rq
    &&& after.cfs_group == before.cfs_group
    &&& after.parent == before.parent
    &&& K::Fair::init_runnable_average_rel(before, FairSchedEntity { load: before.load, ..after })
}

/// Gives a forked task the priorities, the policy and the weight that it gets from the
/// running one, and sets up its averages. A task with a deadline cannot fork.
pub fn sched_fork<K: SchedClasses>(pm: &mut ProcessManager, t: TaskId) -> (res: Result<
    (),
    SystemError,
>)
    requires
        old(pm)@.wf(),
        old(pm)@.has(t),
    ensures
        ({
            let parent = old(pm)@.task(old(pm)@.current).sched_info;
            let child = old(pm)@.task(t).with_prios_of(parent);
            if PrioUtil::dl_prio(parent.normal_prio) {
                &&& res == Err::<(), _>(SystemError::EAGAIN_OR_EWOULDBLOCK)
                &&& final(pm)@ == old(pm)@.with_task(t, child)
            } else {
                let se = final(pm)@.task(t).sched_info.sched_entity;
                &&& res == Ok::<_, SystemError>(())
                &&& forked_entity::<K>(child.sched_info.sched_entity, parent.static_prio, se)
                &&& final(pm)@ == old(pm)@.with_task(t, child.with_policy(fork_policy(parent), se))
            }
        }),
{
    let parent = pm.task(pm.current).sched_info;
    let child = pm.task(t).with_prios_of(parent);
    if PrioUtil::dl_prio(parent.normal_prio) {
        pm.set_task(t, child);
        return Err(SystemError::EAGAIN_OR_EWOULDBLOCK);
    }
    let policy = if PrioUtil::rt_prio(parent.normal_prio) {
        parent.policy
    } else {
        SchedPolicy::CFS
    };
    let mut se = child.sched_info.sched_entity;
    K::Fair::init_entity_runnable_average(&mut se);
    let ghost averaged = se;
    se.load = K::Fair::set_load_weight(child.sched_info.static_prio);
    assert(averaged == (FairSchedEntity { load: child.sched_info.sched_entity.load, ..se }));
    pm.set_task(t, child.with_policy(policy, se));
    Ok(())
}

impl RqState {
    /// The class of a forked task is told of it, if it wants to know.
    pub open spec fn class_fork<K: SchedClasses>(
        self,
        policy: SchedPolicy,
        t: TaskId,
        after: RqState,
    ) -> bool {
        match policy {
            SchedPolicy::CFS => self.spares(after) && K::Fair::task_fork_rel(self, t, after),
            SchedPolicy::FIFO => self.spares(after) && K::Fifo::task_fork_rel(self, t, after),
            _ => after == self,
        }
    }
}

/// Binds a forked task to the processor at work, and tells its class.
pub fn sched_cgroup_fork<K: SchedClasses>(
    sched: &mut SchedCore,
    pm: &mut ProcessManager,
    t: TaskId,
)
    requires
        old(sched)@.wf(),
        old(pm)@.wf(),
        old(pm)@.cpu.id < MAX_CPU_NUM,
        old(pm)@.has(t),
        old(sched)@.accepts_tasks(old(pm)@.cpu),
        old(pm)@.task(t).sched_info.on_rq != OnRq::Queued,
        old(pm)@.task(t).sched_info.policy == SchedPolicy::CFS || old(pm)@.task(
            t,
        ).sched_info.sched_entity.cfs_rq == old(pm)@.cpu,
    ensures
        exists|after: RqState|
            #![trigger RqState::of(
                old(sched)@.rq(old(pm)@.cpu),
                old(pm)@.irq_off().with_task(t, old(pm)@.task(t).placed_on(old(pm)@.cpu)),
            ).class_fork::<K>(old(pm)@.task(t).sched_info.policy, t, after)]
            RqState::of(
                old(sched)@.rq(old(pm)@.cpu),
                old(pm)@.irq_off().with_task(t, old(pm)@.task(t).placed_on(old(pm)@.cpu)),
            ).class_fork::<K>(old(pm)@.task(t).sched_info.policy, t, after) && final(sched)@
                == old(sched)@.with_rq(old(pm)@.cpu, after.rq) && final(pm)@
                == (ProcessManagerView { irq_enabled: old(pm)@.irq_enabled, ..after.pm }),
        final(sched)@.wf(),
        final(pm)@.wf(),
        final(pm)@.task(t).sched_info.sched_entity.cfs_rq == old(pm)@.cpu,
{
    let ghost sched0 = sched@;
    let irq_guard = pm.save_and_disable_irq();
    let fork_cpu = pm.cpu;
    __set_task_cpu(sched, pm, t, fork_cpu);
    let mut rq = cpu_rq(sched, fork_cpu.data() as usize);
    let ghost before = RqState::of(rq, pm@);
    match pm.task(t).sched_info.policy {
        SchedPolicy::CFS => K::Fair::task_fork(&mut rq, pm, t),
        SchedPolicy::FIFO => K::Fifo::task_fork(&mut rq, pm, t),
        _ => {
            proof {
                before.lemma_spares_self();
            }
        },
    }
    let ghost after = RqState::of(rq, pm@);
    proof {
        before.lemma_spared(after, t);
        sched0.lemma_with_rq(fork_cpu, rq);
        assert(before.class_fork::<K>(before.policy(t), t, after));
    }
    sched.set_rq(fork_cpu, rq);
    pm.restore_irq(Some(irq_guard));
}

/// Asks a task to move to a processor. If it runs on another processor than this one,
/// that is interrupted.
pub fn request_task_migration(
    pm: &mut ProcessManager,
    t: TaskId,
    dest_cpu: ProcessorId,
) -> (res: Result<(), SystemError>)
    requires
        old(pm)@.has(t),
    ensures
        res == Ok::<_, SystemError>(()),
        ({
            let asked = old(pm)@.with_task(t, old(pm)@.task(t).asked_to_move(dest_cpu));
            match old(pm)@.task(t).sched_info.on_cpu {
                Some(cpu) => final(pm)@ == if cpu != old(pm)@.cpu {
                    asked.with_action(Action::ReschedIpi(cpu))
                } else {
                    asked
                },
                None => final(pm)@ == asked,
            }
        }),
{
    let p = pm.task(t);
    pm.set_task(t, p.asked_to_move(dest_cpu));
    if let Some(cpu) = p.sched_info.on_cpu {
        if cpu != pm.cpu {
            send_resched_ipi(pm, cpu);
        }
    }
    Ok(())
}

/// A task that was asked to move takes that up at the next pass of the scheduler, for
/// it should give up the processor, and takes it up only once.
pub proof fn law_migration_request_is_taken_once(p: ProcessControlBlock, dest: ProcessorId)
    ensures
        p.asked_to_move(dest).flags.need_schedule,
        p.asked_to_move(dest).migration_target() == Some(dest),
        p.asked_to_move(dest).with_move_taken().migration_target() is None,
{
}

} // verus!
