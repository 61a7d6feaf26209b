//! What a scheduling class does for the core of the scheduler.
use crate::process::action::Action;
use crate::process::manager::{ProcessManager, ProcessManagerView};
use crate::process::pcb::{ProcessControlBlock, TaskId};
use crate::sched::entity::FairSchedEntity;
use crate::sched::load_weight::LoadWeight;
use crate::sched::flags::{DequeueFlag, EnqueueFlag, WakeupFlags};
use crate::sched::policy::SchedPolicy;
use crate::sched::rq::CpuRunQueue;
use vstd::prelude::*;

verus! {

/// A run queue together with the tasks, as a mathematical value: what a
/// scheduling class works on.
pub struct RqState {
    pub rq: CpuRunQueue,
    pub pm: ProcessManagerView,
}

impl RqState {
    #[verifier::inline]
    pub open spec fn of(rq: CpuRunQueue, pm: ProcessManagerView) -> RqState {
        RqState { rq, pm }
    }

    pub open spec fn wf(self) -> bool {
        self.rq.clock_wf() && self.pm.wf()
    }

    /// The policy of a task.
    pub open spec fn policy(self, t: TaskId) -> SchedPolicy {
        self.pm.task(t).sched_info.policy
    }

    /// What a scheduling class leaves alone: of every task all but what the fair class
    /// keeps of it and whether it should give up the processor, of the queue all but
    /// the clocks, which only go forward, the number of tasks and the queues of the
    /// classes, and everything else but the number of runnable tasks. It may note more
    /// to be done.
    #[verifier::opaque]
    pub open spec fn spares(self, after: RqState) -> bool {
        &&& after.wf()
        &&& self.rq.spared_by_class(after.rq)
        &&& self.pm.kept_by_queueing(after.pm)
        &&& forall|t: TaskId|
            self.pm.has(t) ==> self.pm.task(t).spared_by_class(#[trigger] after.pm.task(t))
    }

    /// What is left alone when tasks are put on the queue or taken off it: in addition
    /// to what a class may change, where a task stands, and how long it and the tasks of
    /// the queue have waited.
    #[verifier::opaque]
    pub open spec fn keeps(self, after: RqState) -> bool {
        &&& after.wf()
        &&& self.rq.kept_by_queueing(after.rq)
        &&& self.pm.kept_by_queueing(after.pm)
        &&& forall|t: TaskId|
            self.pm.has(t) ==> self.pm.task(t).kept_by_queueing(#[trigger] after.pm.task(t))
    }

    /// Every task but `t` is as a scheduling class leaves it.
    #[verifier::opaque]
    pub open spec fn spares_others(self, t: TaskId, after: RqState) -> bool {
        forall|u: TaskId|
            self.pm.has(u) && u != t ==> self.pm.task(u).spared_by_class(
                #[trigger] after.pm.task(u),
            )
    }

    /// The clocks of the queue show what they did.
    pub open spec fn same_clock(self, after: RqState) -> bool {
        &&& after.rq.clock == self.rq.clock
        &&& after.rq.clock_task == self.rq.clock_task
        &&& after.rq.prev_irq_time == self.rq.prev_irq_time
    }

    /// What stays through every step of the scheduler short of a switch: whose queue
    /// it is, what runs on it, its lock, the processor at work, and the nature of
    /// every task.
    #[verifier::opaque]
    pub open spec fn stays(self, after: RqState) -> bool {
        &&& after.wf()
        &&& after.rq.cpu == self.rq.cpu
        &&& after.rq.lock == self.rq.lock
        &&& after.rq.current == self.rq.current
        &&& after.rq.current_ptr == self.rq.current_ptr
        &&& after.rq.idle == self.rq.idle
        &&& after.rq.sched_domain == self.rq.sched_domain
        &&& after.rq.prev_irq_time >= self.rq.prev_irq_time
        &&& after.pm.tasks.len() == self.pm.tasks.len()
        &&& after.pm.current == self.pm.current
        &&& after.pm.cpu == self.pm.cpu
        &&& after.pm.init_done == self.pm.init_done
        &&& after.pm.preempt_count == self.pm.preempt_count
        &&& after.pm.irq_enabled == self.pm.irq_enabled
        &&& forall|t: TaskId|
            self.pm.has(t) ==> self.pm.task(t).stays(#[trigger] after.pm.task(t))
    }

    /// What queueing leaves alone stays.
    pub proof fn lemma_stays(self, after: RqState)
        requires
            self.keeps(after),
        ensures
            self.stays(after),
    {
        reveal(RqState::keeps);
        reveal(RqState::stays);
        assert forall|t: TaskId| self.pm.has(t) implies self.pm.task(t).stays(
            #[trigger] after.pm.task(t),
        ) by {
            self.pm.task(t).lemma_kept(after.pm.task(t));
        }
    }

    /// What stays over two steps, stays over the two together.
    pub proof fn lemma_stays_on(self, mid: RqState, after: RqState)
        requires
            self.stays(mid),
            mid.stays(after),
        ensures
            self.stays(after),
    {
        reveal(RqState::stays);
        assert forall|t: TaskId| self.pm.has(t) implies self.pm.task(t).stays(
            #[trigger] after.pm.task(t),
        ) by {
            assert(self.pm.task(t).stays(mid.pm.task(t)));
        }
    }

    /// A step that changes nothing else of the queue and of one task.
    pub proof fn lemma_stays_step(self, t: TaskId, pcb: ProcessControlBlock, rq: CpuRunQueue)
        requires
            self.wf(),
            self.pm.has(t),
            rq.clock_wf(),
            rq.cpu == self.rq.cpu,
            rq.lock == self.rq.lock,
            rq.current == self.rq.current,
            rq.current_ptr == self.rq.current_ptr,
            rq.idle == self.rq.idle,
            rq.sched_domain == self.rq.sched_domain,
            rq.prev_irq_time >= self.rq.prev_irq_time,
            self.pm.task(t).stays(pcb),
            pcb.sighand == self.pm.task(t).sighand,
        ensures
            self.stays((RqState { rq, pm: self.pm.with_task(t, pcb) })),
            self.stays((RqState { rq, pm: self.pm })),
    {
        reveal(RqState::stays);
    }

    /// What is known after such a step.
    pub proof fn lemma_stayed(self, after: RqState)
        requires
            self.stays(after),
        ensures
            after.wf(),
            after.rq.cpu == self.rq.cpu,
            after.rq.lock == self.rq.lock,
            after.rq.current == self.rq.current,
            after.rq.current_ptr == self.rq.current_ptr,
            after.rq.idle == self.rq.idle,
            after.rq.sched_domain == self.rq.sched_domain,
            after.rq.prev_irq_time >= self.rq.prev_irq_time,
            after.pm.tasks.len() == self.pm.tasks.len(),
            after.pm.current == self.pm.current,
            after.pm.cpu == self.pm.cpu,
            after.pm.init_done == self.pm.init_done,
            after.pm.preempt_count == self.pm.preempt_count,
            after.pm.irq_enabled == self.pm.irq_enabled,
            forall|t: TaskId|
                self.pm.has(t) ==> self.pm.task(t).stays(#[trigger] after.pm.task(t)),
    {
        reveal(RqState::stays);
    }

    /// Nothing changes if nothing happens.
    pub proof fn lemma_keeps_self(self)
        requires
            self.wf(),
        ensures
            self.keeps(self),
    {
        reveal(RqState::keeps);
        lemma_all_kept(self.pm);
        self.pm.lemma_kept_self();
    }

    /// What two steps leave alone, the two together leave alone.
    pub proof fn lemma_keeps(self, mid: RqState, after: RqState)
        requires
            self.keeps(mid),
            mid.keeps(after),
        ensures
            self.keeps(after),
    {
        reveal(RqState::keeps);
        lemma_prefix(self.pm.actions, mid.pm.actions, after.pm.actions);
        assert forall|t: TaskId| self.pm.has(t) implies self.pm.task(t).kept_by_queueing(
            #[trigger] after.pm.task(t),
        ) by {
            assert(self.pm.task(t).kept_by_queueing(mid.pm.task(t)));
            assert(mid.pm.task(t).kept_by_queueing(after.pm.task(t)));
            self.pm.task(t).lemma_kept_on(mid.pm.task(t), after.pm.task(t));
        }
    }

    /// A step that changes one task and the queue no more than queueing does.
    pub proof fn lemma_keeps_step(self, t: TaskId, pcb: ProcessControlBlock, rq: CpuRunQueue)
        requires
            self.wf(),
            self.pm.has(t),
            rq.clock_wf(),
            self.rq.kept_by_queueing(rq),
            self.pm.task(t).kept_by_queueing(pcb),
        ensures
            self.keeps((RqState { rq, pm: self.pm.with_task(t, pcb) })),
            self.keeps((RqState { rq, pm: self.pm })),
            self.spares_others(t, (RqState { rq, pm: self.pm.with_task(t, pcb) })),
            self.spares_others(t, (RqState { rq, pm: self.pm })),
    {
        reveal(RqState::keeps);
        reveal(RqState::spares_others);
        self.pm.task(t).lemma_kept(pcb);
        lemma_all_kept(self.pm);
        self.pm.lemma_kept_self();
    }

    /// A step that changes one task and the queue no more than a scheduling class does.
    pub proof fn lemma_spares_step(self, t: TaskId, pcb: ProcessControlBlock, rq: CpuRunQueue)
        requires
            self.wf(),
            self.pm.has(t),
            rq.clock_wf(),
            self.rq.spared_by_class(rq),
            self.pm.task(t).spared_by_class(pcb),
        ensures
            self.spares((RqState { rq, pm: self.pm.with_task(t, pcb) })),
    {
        reveal(RqState::spares);
        self.pm.task(t).lemma_kept(pcb);
        lemma_all_kept(self.pm);
        self.pm.lemma_kept_self();
    }

    /// Nothing changes if nothing happens.
    pub proof fn lemma_spares_self(self)
        requires
            self.wf(),
        ensures
            self.spares(self),
    {
        reveal(RqState::spares);
        lemma_all_kept(self.pm);
        self.pm.lemma_kept_self();
    }

    /// What two steps leave alone, the two together leave alone.
    pub proof fn lemma_spares(self, mid: RqState, after: RqState)
        requires
            self.spares(mid),
            mid.spares(after),
        ensures
            self.spares(after),
    {
        reveal(RqState::spares);
        lemma_prefix(self.pm.actions, mid.pm.actions, after.pm.actions);
        assert forall|t: TaskId| self.pm.has(t) implies self.pm.task(t).spared_by_class(
            #[trigger] after.pm.task(t),
        ) by {
            assert(self.pm.task(t).spared_by_class(mid.pm.task(t)));
            assert(mid.pm.task(t).spared_by_class(after.pm.task(t)));
            self.pm.task(t).lemma_kept_on(mid.pm.task(t), after.pm.task(t));
        }
    }

    /// What a scheduling class leaves alone, queueing leaves alone.
    pub proof fn lemma_spares_keeps(self, after: RqState)
        requires
            self.spares(after),
        ensures
            self.keeps(after),
            forall|t: TaskId| #[trigger] self.spares_others(t, after),
    {
        reveal(RqState::spares);
        reveal(RqState::keeps);
        reveal(RqState::spares_others);
        assert forall|t: TaskId| self.pm.has(t) implies self.pm.task(t).kept_by_queueing(
            #[trigger] after.pm.task(t),
        ) by {
            assert(self.pm.task(t).spared_by_class(after.pm.task(t)));
        }
    }

    /// What is known of a task after a step of a scheduling class.
    pub proof fn lemma_spared(self, after: RqState, t: TaskId)
        requires
            self.spares(after),
            self.pm.has(t),
        ensures
            after.wf(),
            self.rq.spared_by_class(after.rq),
            self.pm.kept_by_queueing(after.pm),
            self.pm.task(t).spared_by_class(after.pm.task(t)),
            self.pm.task(t).kept_facts(after.pm.task(t)),
    {
        reveal(RqState::spares);
        self.pm.task(t).lemma_kept(after.pm.task(t));
    }

    /// What two steps leave alone of the other tasks, the two together leave alone.
    pub proof fn lemma_others(self, t: TaskId, mid: RqState, after: RqState)
        requires
            self.spares_others(t, mid),
            mid.spares_others(t, after),
            mid.pm.tasks.len() == self.pm.tasks.len(),
        ensures
            self.spares_others(t, after),
    {
        reveal(RqState::spares_others);
        assert forall|u: TaskId| self.pm.has(u) && u != t implies self.pm.task(
            u,
        ).spared_by_class(#[trigger] after.pm.task(u)) by {
            assert(self.pm.task(u).spared_by_class(mid.pm.task(u)));
            assert(mid.pm.task(u).spared_by_class(after.pm.task(u)));
            self.pm.task(u).lemma_kept_on(mid.pm.task(u), after.pm.task(u));
        }
    }

    /// Replacing one task leaves the others alone.
    pub proof fn lemma_others_same(self, t: TaskId, pcb: ProcessControlBlock, rq: CpuRunQueue)
        requires
            self.pm.has(t),
        ensures
            self.spares_others(t, (RqState { rq, pm: self.pm.with_task(t, pcb) })),
    {
        reveal(RqState::spares_others);
        lemma_all_kept(self.pm);
    }

    /// What is known of a task after a step that is about another one.
    pub proof fn lemma_other(self, t: TaskId, after: RqState, u: TaskId)
        requires
            self.spares_others(t, after),
            self.pm.has(u),
            u != t,
        ensures
            self.pm.task(u).spared_by_class(after.pm.task(u)),
            self.pm.task(u).kept_facts(after.pm.task(u)),
    {
        reveal(RqState::spares_others);
        self.pm.task(u).lemma_kept(after.pm.task(u));
    }

    /// Noting something to be done leaves alone what a scheduling class does.
    pub proof fn lemma_spares_action(self, action: Action)
        requires
            self.wf(),
        ensures
            self.spares((RqState { rq: self.rq, pm: self.pm.with_action(action) })),
    {
        reveal(RqState::spares);
        lemma_all_kept(self.pm);
        self.pm.lemma_kept_self();
        assert(self.pm.actions =~= self.pm.actions.push(action).subrange(
            0,
            self.pm.actions.len() as int,
        ));
    }

    /// What is known after a step of queueing.
    pub proof fn lemma_kept(self, after: RqState)
        requires
            self.keeps(after),
        ensures
            after.wf(),
            self.rq.kept_by_queueing(after.rq),
            self.pm.kept_by_queueing(after.pm),
            forall|t: TaskId|
                self.pm.has(t) ==> self.pm.task(t).kept_facts(#[trigger] after.pm.task(t)),
    {
        reveal(RqState::keeps);
        assert forall|t: TaskId| self.pm.has(t) implies self.pm.task(t).kept_facts(
            #[trigger] after.pm.task(t),
        ) by {
            self.pm.task(t).lemma_kept(after.pm.task(t));
        }
    }
}

/// Every task is left alone if nothing happens.
proof fn lemma_all_kept(pm: ProcessManagerView)
    ensures
        forall|t: TaskId| (#[trigger] pm.task(t)).kept_by_queueing(pm.task(t)),
{
    assert forall|t: TaskId| (#[trigger] pm.task(t)).kept_by_queueing(pm.task(t)) by {
        pm.task(t).lemma_kept_self();
    }
}

/// What begins what begins a list begins the list.
proof fn lemma_prefix(a: Seq<Action>, b: Seq<Action>, c: Seq<Action>)
    requires
        a.is_prefix_of(b),
        b.is_prefix_of(c),
    ensures
        a.is_prefix_of(c),
{
    assert forall|i: int| 0 <= i < a.len() implies a[i] == c[i] by {
        assert(a[i] == b.subrange(0, a.len() as int)[i]);
        assert(b[i] == c.subrange(0, b.len() as int)[i]);
    }
    assert(a =~= c.subrange(0, a.len() as int));
}

/// The scheduling class of a policy. Each method comes with a relation between the
/// queue and the tasks before and after, by which the core of the scheduler says
/// what it had the class do.
pub trait Scheduler {
    open spec fn enqueue_rel(
        before: RqState,
        t: TaskId,
        flags: EnqueueFlag,
        after: RqState,
    ) -> bool {
        true
    }

    open spec fn dequeue_rel(
        before: RqState,
        t: TaskId,
        flags: DequeueFlag,
        after: RqState,
    ) -> bool {
        true
    }

    open spec fn yield_task_rel(before: RqState, after: RqState) -> bool {
        true
    }

    open spec fn check_preempt_current_rel(
        before: RqState,
        t: TaskId,
        flags: WakeupFlags,
        after: RqState,
    ) -> bool {
        true
    }

    open spec fn pick_task_rel(before: RqState, picked: Option<TaskId>, after: RqState) -> bool {
        true
    }

    open spec fn pick_next_task_rel(
        before: RqState,
        prev: Option<TaskId>,
        picked: Option<TaskId>,
        after: RqState,
    ) -> bool {
        true
    }

    open spec fn tick_rel(before: RqState, t: TaskId, queued: bool, after: RqState) -> bool {
        true
    }

    open spec fn task_fork_rel(before: RqState, t: TaskId, after: RqState) -> bool {
        true
    }

    open spec fn put_prev_task_rel(before: RqState, prev: TaskId, after: RqState) -> bool {
        true
    }

    /// A task becomes runnable.
    fn enqueue(rq: &mut CpuRunQueue, pm: &mut ProcessManager, t: TaskId, flags: EnqueueFlag)
        requires
            old(rq).clock_wf(),
            old(pm)@.wf(),
            old(pm)@.has(t),
        ensures
            Self::enqueue_rel(
                RqState::of(*old(rq), old(pm)@),
                t,
                flags,
                RqState::of(*final(rq), final(pm)@),
            ),
            RqState::of(*old(rq), old(pm)@).spares(RqState::of(*final(rq), final(pm)@)),
    ;

    /// A task is no longer runnable.
    fn dequeue(rq: &mut CpuRunQueue, pm: &mut ProcessManager, t: TaskId, flags: DequeueFlag)
        requires
            old(rq).clock_wf(),
            old(pm)@.wf(),
            old(pm)@.has(t),
        ensures
            Self::dequeue_rel(
                RqState::of(*old(rq), old(pm)@),
                t,
                flags,
                RqState::of(*final(rq), final(pm)@),
            ),
            RqState::of(*old(rq), old(pm)@).spares(RqState::of(*final(rq), final(pm)@)),
    ;

    /// The running task gives way to others of its class.
    fn yield_task(rq: &mut CpuRunQueue, pm: &mut ProcessManager)
        requires
            old(rq).clock_wf(),
            old(pm)@.wf(),
            old(rq).current is Some,
            old(pm)@.has(old(rq).current->Some_0),
        ensures
            Self::yield_task_rel(
                RqState::of(*old(rq), old(pm)@),
                RqState::of(*final(rq), final(pm)@),
            ),
            RqState::of(*old(rq), old(pm)@).spares(RqState::of(*final(rq), final(pm)@)),
    ;

    /// Looks whether a task that became runnable may preempt the running one. Only among
    /// tasks of the fair class does that depend on the clock, which may then be brought up
    /// to date.
    fn check_preempt_current(
        rq: &mut CpuRunQueue,
        pm: &mut ProcessManager,
        t: TaskId,
        flags: WakeupFlags,
    )
        requires
            old(rq).clock_wf(),
            old(pm)@.wf(),
            old(pm)@.has(t),
            old(rq).current is Some,
            old(pm)@.has(old(rq).current->Some_0),
        ensures
            Self::check_preempt_current_rel(
                RqState::of(*old(rq), old(pm)@),
                t,
                flags,
                RqState::of(*final(rq), final(pm)@),
            ),
            RqState::of(*old(rq), old(pm)@).spares(RqState::of(*final(rq), final(pm)@)),
            old(pm)@.task(t).sched_info.policy != SchedPolicy::CFS ==> RqState::of(
                *old(rq),
                old(pm)@,
            ).same_clock(RqState::of(*final(rq), final(pm)@)),
    ;

    /// The task that should run next.
    fn pick_task(rq: &mut CpuRunQueue, pm: &mut ProcessManager) -> (picked: Option<TaskId>)
        requires
            old(rq).clock_wf(),
            old(pm)@.wf(),
        ensures
            Self::pick_task_rel(
                RqState::of(*old(rq), old(pm)@),
                picked,
                RqState::of(*final(rq), final(pm)@),
            ),
            RqState::of(*old(rq), old(pm)@).spares(RqState::of(*final(rq), final(pm)@)),
            picked is Some ==> final(pm)@.has(picked->Some_0),
    ;

    /// Picks the task that runs next.
    fn pick_next_task(
        rq: &mut CpuRunQueue,
        pm: &mut ProcessManager,
        prev: Option<TaskId>,
    ) -> (picked: Option<TaskId>)
        requires
            old(rq).clock_wf(),
            old(pm)@.wf(),
            prev is Some ==> old(pm)@.has(prev->Some_0),
        ensures
            Self::pick_next_task_rel(
                RqState::of(*old(rq), old(pm)@),
                prev,
                picked,
                RqState::of(*final(rq), final(pm)@),
            ),
            RqState::of(*old(rq), old(pm)@).spares(RqState::of(*final(rq), final(pm)@)),
            picked is Some ==> final(pm)@.has(picked->Some_0),
    ;

    /// The timer ticks while a task of the class runs.
    fn tick(rq: &mut CpuRunQueue, pm: &mut ProcessManager, t: TaskId, queued: bool)
        requires
            old(rq).clock_wf(),
            old(pm)@.wf(),
            old(pm)@.has(t),
        ensures
            Self::tick_rel(
                RqState::of(*old(rq), old(pm)@),
                t,
                queued,
                RqState::of(*final(rq), final(pm)@),
            ),
            RqState::of(*old(rq), old(pm)@).spares(RqState::of(*final(rq), final(pm)@)),
    ;

    /// A task was forked.
    fn task_fork(rq: &mut CpuRunQueue, pm: &mut ProcessManager, t: TaskId)
        requires
            old(rq).clock_wf(),
            old(pm)@.wf(),
            old(pm)@.has(t),
        ensures
            Self::task_fork_rel(
                RqState::of(*old(rq), old(pm)@),
                t,
                RqState::of(*final(rq), final(pm)@),
            ),
            RqState::of(*old(rq), old(pm)@).spares(RqState::of(*final(rq), final(pm)@)),
    ;

    /// The task that ran so far does so no longer.
    fn put_prev_task(rq: &mut CpuRunQueue, pm: &mut ProcessManager, prev: TaskId)
        requires
            old(rq).clock_wf(),
            old(pm)@.wf(),
            old(pm)@.has(prev),
        ensures
            Self::put_prev_task_rel(
                RqState::of(*old(rq), old(pm)@),
                prev,
                RqState::of(*final(rq), final(pm)@),
            ),
            RqState::of(*old(rq), old(pm)@).spares(RqState::of(*final(rq), final(pm)@)),
    ;
}

/// What else the fair class does.
pub trait FairScheduler: Scheduler {
    open spec fn set_next_task_rel(before: RqState, t: TaskId, after: RqState) -> bool {
        true
    }

    open spec fn init_runnable_average_rel(
        before: FairSchedEntity,
        after: FairSchedEntity,
    ) -> bool {
        true
    }

    open spec fn post_init_util_avg_rel(before: RqState, t: TaskId, after: RqState) -> bool {
        true
    }

    open spec fn load_weight_rel(static_prio: i32, load: LoadWeight) -> bool {
        true
    }

    /// A task of the class is the one that runs from now on.
    fn set_next_task(rq: &mut CpuRunQueue, pm: &mut ProcessManager, t: TaskId)
        requires
            old(rq).clock_wf(),
            old(pm)@.wf(),
            old(pm)@.has(t),
        ensures
            Self::set_next_task_rel(
                RqState::of(*old(rq), old(pm)@),
                t,
                RqState::of(*final(rq), final(pm)@),
            ),
            RqState::of(*old(rq), old(pm)@).spares(RqState::of(*final(rq), final(pm)@)),
    ;

    /// Sets up the averages of a task that is forked: it has used nothing yet.
    fn init_entity_runnable_average(se: &mut FairSchedEntity)
        ensures
            Self::init_runnable_average_rel(*old(se), *final(se)),
            final(se).util_avg == 0,
            final(se).load == old(se).load,
            final(se).cfs_rq == old(se).cfs_rq,
            final(se).cfs_group == old(se).cfs_group,
            final(se).parent == old(se).parent,
    ;

    /// Sets up the averages of a task that is about to be queued for the first time.
    fn post_init_entity_util_avg(rq: &mut CpuRunQueue, pm: &mut ProcessManager, t: TaskId)
        requires
            old(rq).clock_wf(),
            old(pm)@.wf(),
            old(pm)@.has(t),
        ensures
            Self::post_init_util_avg_rel(
                RqState::of(*old(rq), old(pm)@),
                t,
                RqState::of(*final(rq), final(pm)@),
            ),
            RqState::of(*old(rq), old(pm)@).spares(RqState::of(*final(rq), final(pm)@)),
    ;

    /// The weight of a task with a static priority.
    fn set_load_weight(static_prio: i32) -> (load: LoadWeight)
        ensures
            Self::load_weight_rel(static_prio, load),
    ;
}

/// The scheduling classes of a kernel.
pub trait SchedClasses {
    type Fair: FairScheduler;

    type Fifo: Scheduler;

    type Idle: Scheduler;
}

impl RqState {
    /// The class of `policy` enqueues `t`. There is no real-time class.
    pub open spec fn class_enqueue<K: SchedClasses>(
        self,
        policy: SchedPolicy,
        t: TaskId,
        flags: EnqueueFlag,
        after: RqState,
    ) -> bool {
        &&& self.spares(after)
        &&& match policy {
            SchedPolicy::CFS => K::Fair::enqueue_rel(self, t, flags, after),
            SchedPolicy::FIFO => K::Fifo::enqueue_rel(self, t, flags, after),
            SchedPolicy::IDLE => K::Idle::enqueue_rel(self, t, flags, after),
            SchedPolicy::RT => false,
        }
    }

    /// The class of `policy` dequeues `t`.
    pub open spec fn class_dequeue<K: SchedClasses>(
        self,
        policy: SchedPolicy,
        t: TaskId,
        flags: DequeueFlag,
        after: RqState,
    ) -> bool {
        &&& self.spares(after)
        &&& match policy {
            SchedPolicy::CFS => K::Fair::dequeue_rel(self, t, flags, after),
            SchedPolicy::FIFO => K::Fifo::dequeue_rel(self, t, flags, after),
            SchedPolicy::IDLE => K::Idle::dequeue_rel(self, t, flags, after),
            SchedPolicy::RT => false,
        }
    }

    /// The class of `policy` looks whether `t` may preempt the running task.
    pub open spec fn class_check_preempt<K: SchedClasses>(
        self,
        policy: SchedPolicy,
        t: TaskId,
        flags: WakeupFlags,
        after: RqState,
    ) -> bool {
        &&& self.spares(after)
        &&& policy == SchedPolicy::CFS || self.same_clock(after)
        &&& match policy {
            SchedPolicy::CFS => K::Fair::check_preempt_current_rel(self, t, flags, after),
            SchedPolicy::FIFO => K::Fifo::check_preempt_current_rel(self, t, flags, after),
            SchedPolicy::IDLE => K::Idle::check_preempt_current_rel(self, t, flags, after),
            SchedPolicy::RT => false,
        }
    }

    /// The class of `policy` takes `prev` off the processor.
    pub open spec fn class_put_prev<K: SchedClasses>(
        self,
        policy: SchedPolicy,
        prev: TaskId,
        after: RqState,
    ) -> bool {
        &&& self.spares(after)
        &&& match policy {
            SchedPolicy::CFS => K::Fair::put_prev_task_rel(self, prev, after),
            SchedPolicy::FIFO => K::Fifo::put_prev_task_rel(self, prev, after),
            SchedPolicy::IDLE => K::Idle::put_prev_task_rel(self, prev, after),
            SchedPolicy::RT => false,
        }
    }

    /// The class of `policy` takes a tick.
    pub open spec fn class_tick<K: SchedClasses>(
        self,
        policy: SchedPolicy,
        t: TaskId,
        after: RqState,
    ) -> bool {
        &&& self.spares(after)
        &&& match policy {
            SchedPolicy::CFS => K::Fair::tick_rel(self, t, false, after),
            SchedPolicy::FIFO => K::Fifo::tick_rel(self, t, false, after),
            SchedPolicy::IDLE => K::Idle::tick_rel(self, t, false, after),
            SchedPolicy::RT => false,
        }
    }
}

/// How the architecture starts and stops scheduling on the processor at work.
pub trait SchedArch {
    /// Starts scheduling.
    fn enable_sched_local();

    /// Stops scheduling.
    fn disable_sched_local();

    /// Sets up the clock before scheduling starts for the first time.
    fn initial_setup_sched_local() {
    }
}

} // verus!
