//! All tasks together, and the processor that is at work.
use crate::process::action::Action;
use crate::process::pcb::{ProcessControlBlock, ProcessFlags, TaskId};
use crate::process::signal::{RawPid, SigHand};
use crate::smp::cpu::ProcessorId;
use vstd::prelude::*;

verus! {

/// The tasks, what belongs to the processor that is at work, and what is still
/// to be done.
pub struct ProcessManager {
    /// Every task, by its place.
    pub tasks: Vec<ProcessControlBlock>,
    /// For every task the numbers of the tasks that it traces.
    pub ptraced: Vec<Vec<RawPid>>,
    /// The signal states of the processes.
    pub sighands: Vec<SigHand>,
    /// How deep preemption is disabled on each processor.
    pub preempt_count: Vec<usize>,
    /// Processes have been set up.
    pub init_done: bool,
    /// The processor that is at work.
    pub cpu: ProcessorId,
    /// The task that runs on it.
    pub current: TaskId,
    /// It takes interrupts.
    pub irq_enabled: bool,
    /// How deep the work that interrupts defer is disabled on it.
    pub bh_disabled: usize,
    /// The number of runnable tasks on all processors.
    pub nr_running: usize,
    /// What is to be done, in order.
    pub actions: Vec<Action>,
}

/// A `ProcessManager` as a mathematical value.
#[verifier::ext_equal]
pub struct ProcessManagerView {
    pub tasks: Seq<ProcessControlBlock>,
    pub ptraced: Seq<Seq<RawPid>>,
    pub sighands: Seq<SigHand>,
    pub preempt_count: Seq<usize>,
    pub init_done: bool,
    pub cpu: ProcessorId,
    pub current: TaskId,
    pub irq_enabled: bool,
    pub bh_disabled: usize,
    pub nr_running: usize,
    pub actions: Seq<Action>,
}

impl View for ProcessManager {
    type V = ProcessManagerView;

    open spec fn view(&self) -> ProcessManagerView {
        ProcessManagerView {
            tasks: self.tasks@,
            ptraced: self.ptraced@.map_values(|v: Vec<RawPid>| v@),
            sighands: self.sighands@,
            preempt_count: self.preempt_count@,
            init_done: self.init_done,
            cpu: self.cpu,
            current: self.current,
            irq_enabled: self.irq_enabled,
            bh_disabled: self.bh_disabled,
            nr_running: self.nr_running,
            actions: self.actions@,
        }
    }
}

impl ProcessManagerView {
    /// The tables fit together: there is a list of tracees for every task, the
    /// running task and the working processor exist, and every task has a signal
    /// state.
    pub open spec fn wf(self) -> bool {
        &&& self.ptraced.len() == self.tasks.len()
        &&& self.current < self.tasks.len()
        &&& self.cpu.id < self.preempt_count.len()
        &&& forall|t: int|
            0 <= t < self.tasks.len() ==> (#[trigger] self.tasks[t]).sighand < self.sighands.len()
    }

    /// What the scheduler leaves alone apart from the tasks themselves: everything but
    /// the number of runnable tasks, and what is to be done, to which it only adds.
    pub open spec fn kept_by_queueing(self, after: ProcessManagerView) -> bool {
        &&& after.tasks.len() == self.tasks.len()
        &&& self.actions.is_prefix_of(after.actions)
        &&& after == (ProcessManagerView {
            tasks: after.tasks,
            nr_running: after.nr_running,
            actions: after.actions,
            ..self
        })
    }

    /// All is left alone if nothing happens.
    pub proof fn lemma_kept_self(self)
        ensures
            self.kept_by_queueing(self),
    {
        assert(self.actions =~= self.actions.subrange(0, self.actions.len() as int));
    }

    /// Whether `t` is the place of a task.
    pub open spec fn has(self, t: TaskId) -> bool {
        t < self.tasks.len()
    }

    /// The task at a place.
    pub open spec fn task(self, t: TaskId) -> ProcessControlBlock {
        self.tasks[t as int]
    }

    /// The same with another task at a place.
    pub open spec fn with_task(self, t: TaskId, pcb: ProcessControlBlock) -> ProcessManagerView {
        ProcessManagerView { tasks: self.tasks.update(t as int, pcb), ..self }
    }

    /// The same with one more thing to be done.
    pub open spec fn with_action(self, action: Action) -> ProcessManagerView {
        ProcessManagerView { actions: self.actions.push(action), ..self }
    }

    /// The same with another list of tracees for a task.
    pub open spec fn with_ptraced(self, t: TaskId, pids: Seq<RawPid>) -> ProcessManagerView {
        ProcessManagerView { ptraced: self.ptraced.update(t as int, pids), ..self }
    }

    /// Follows a reference: gives the task if there still is one.
    pub open spec fn upgrade(self, weak: Option<TaskId>) -> Option<TaskId> {
        match weak {
            Some(t) => if self.has(t) && self.task(t).alive {
                Some(t)
            } else {
                None
            },
            None => None,
        }
    }

    /// The signal state of a task.
    pub open spec fn sighand(self, t: TaskId) -> SigHand {
        self.sighands[self.task(t).sighand as int]
    }

    /// The same with another signal state for the process of a task.
    pub open spec fn with_sighand(self, t: TaskId, sighand: SigHand) -> ProcessManagerView {
        ProcessManagerView {
            sighands: self.sighands.update(self.task(t).sighand as int, sighand),
            ..self
        }
    }

    /// Whether the task at place `t` is found under the number `pid`.
    pub open spec fn is_pid_of(self, pid: RawPid, t: int) -> bool {
        self.tasks[t].hashed && self.tasks[t].raw_pid == pid
    }

    /// Whether the task at place `t` is found under the number `pid` in the
    /// namespace of the running process.
    pub open spec fn is_vpid_of(self, pid: RawPid, t: int) -> bool {
        self.tasks[t].hashed && self.tasks[t].vpid == pid
    }

    /// Whether looking up the number `pid` gives `found`.
    pub open spec fn finds(self, pid: RawPid, found: Option<TaskId>) -> bool {
        match found {
            Some(t) => self.has(t) && self.is_pid_of(pid, t as int) && forall|u: int|
                0 <= u < t ==> !#[trigger] self.is_pid_of(pid, u),
            None => forall|u: int|
                0 <= u < self.tasks.len() ==> !#[trigger] self.is_pid_of(pid, u),
        }
    }

    /// The task that is found under the number `pid`.
    pub open spec fn find(self, pid: RawPid) -> Option<TaskId> {
        choose|found: Option<TaskId>| self.finds(pid, found)
    }

    /// Whether looking up the number `pid` in the namespace of the running process
    /// gives `found`.
    pub open spec fn finds_vpid(self, pid: RawPid, found: Option<TaskId>) -> bool {
        match found {
            Some(t) => self.has(t) && self.is_vpid_of(pid, t as int) && forall|u: int|
                0 <= u < t ==> !#[trigger] self.is_vpid_of(pid, u),
            None => forall|u: int|
                0 <= u < self.tasks.len() ==> !#[trigger] self.is_vpid_of(pid, u),
        }
    }

    /// The task that is found under the number `pid` in the namespace of the
    /// running process.
    pub open spec fn find_vpid(self, pid: RawPid) -> Option<TaskId> {
        choose|found: Option<TaskId>| self.finds_vpid(pid, found)
    }

    /// Of two tasks that are put at one place the second stays.
    pub proof fn lemma_with_task_twice(
        self,
        t: TaskId,
        a: ProcessControlBlock,
        b: ProcessControlBlock,
    )
        requires
            self.has(t),
        ensures
            self.with_task(t, a).with_task(t, b) == self.with_task(t, b),
    {
        assert(self.with_task(t, a).with_task(t, b).tasks =~= self.with_task(t, b).tasks);
    }

    /// Looking up a number has one answer only.
    pub proof fn lemma_find(self, pid: RawPid, found: Option<TaskId>)
        requires
            self.finds(pid, found),
        ensures
            self.find(pid) == found,
    {
        let other = self.find(pid);
        assert(self.finds(pid, other));
        if let Some(a) = found {
            assert(self.is_pid_of(pid, a as int));
            if let Some(b) = other {
                assert(self.is_pid_of(pid, b as int));
            }
        } else if let Some(b) = other {
            assert(self.is_pid_of(pid, b as int));
        }
    }

    /// Looking up a number in the namespace of the running process has one answer
    /// only.
    pub proof fn lemma_find_vpid(self, pid: RawPid, found: Option<TaskId>)
        requires
            self.finds_vpid(pid, found),
        ensures
            self.find_vpid(pid) == found,
    {
        let other = self.find_vpid(pid);
        assert(self.finds_vpid(pid, other));
        if let Some(a) = found {
            assert(self.is_vpid_of(pid, a as int));
            if let Some(b) = other {
                assert(self.is_vpid_of(pid, b as int));
            }
        } else if let Some(b) = other {
            assert(self.is_vpid_of(pid, b as int));
        }
    }
}

impl ProcessManager {
    /// The task at a place.
    pub fn task(&self, t: TaskId) -> (pcb: ProcessControlBlock)
        requires
            self@.has(t),
        ensures
            pcb == self@.task(t),
    {
        self.tasks[t]
    }

    /// Replaces the task at a place.
    pub fn set_task(&mut self, t: TaskId, pcb: ProcessControlBlock)
        requires
            old(self)@.has(t),
        ensures
            final(self)@ == old(self)@.with_task(t, pcb),
    {
        self.tasks[t] = pcb;
    }

    /// Replaces the marks on a task.
    pub fn set_flags(&mut self, t: TaskId, flags: ProcessFlags)
        requires
            old(self)@.has(t),
        ensures
            final(self)@ == old(self)@.with_task(t, old(self)@.task(t).with_flags(flags)),
    {
        let mut pcb = self.tasks[t];
        pcb.flags = flags;
        self.tasks[t] = pcb;
    }

    /// Notes something to be done.
    pub fn act(&mut self, action: Action)
        ensures
            final(self)@ == old(self)@.with_action(action),
    {
        self.actions.push(action);
    }

    /// Follows a reference: gives the task if there still is one.
    pub fn upgrade(&self, weak: Option<TaskId>) -> (strong: Option<TaskId>)
        ensures
            strong == self@.upgrade(weak),
            strong is Some ==> self@.has(strong->Some_0),
    {
        match weak {
            Some(t) => if t < self.tasks.len() && self.tasks[t].alive {
                Some(t)
            } else {
                None
            },
            None => None,
        }
    }

    /// The signal state of a task.
    pub fn sighand(&self, t: TaskId) -> (sighand: SigHand)
        requires
            self@.wf(),
            self@.has(t),
        ensures
            sighand == self@.sighand(t),
    {
        self.sighands[self.tasks[t].sighand]
    }

    /// Replaces the signal state of the process of a task.
    pub fn set_sighand(&mut self, t: TaskId, sighand: SigHand)
        requires
            old(self)@.wf(),
            old(self)@.has(t),
        ensures
            final(self)@ == old(self)@.with_sighand(t, sighand),
    {
        let i: usize = self.tasks[t].sighand;
        self.sighands[i] = sighand;
    }

    /// Replaces the list of tracees of a task.
    pub fn set_ptraced(&mut self, t: TaskId, pids: Vec<RawPid>)
        requires
            t < old(self)@.ptraced.len(),
        ensures
            final(self)@ == old(self)@.with_ptraced(t, pids@),
    {
        self.ptraced[t] = pids;
        assert(self@.ptraced =~= old(self)@.ptraced.update(t as int, pids@));
    }

    /// The task with the number `pid`.
    pub fn find(&self, pid: RawPid) -> (found: Option<TaskId>)
        ensures
            found == self@.find(pid),
            self@.finds(pid, found),
    {
        let mut i: usize = 0;
        while i < self.tasks.len()
            invariant
                i <= self@.tasks.len(),
                forall|u: int| 0 <= u < i ==> !#[trigger] self@.is_pid_of(pid, u),
            decreases self@.tasks.len() - i,
        {
            if self.tasks[i].hashed && self.tasks[i].raw_pid == pid {
                proof {
                    assert(self@.is_pid_of(pid, i as int));
                    self@.lemma_find(pid, Some(i));
                }
                return Some(i);
            }
            i = i + 1;
        }
        proof {
            self@.lemma_find(pid, None);
        }
        None
    }

    /// The task with the number `pid` in the namespace of the running process.
    pub fn find_task_by_vpid(&self, pid: RawPid) -> (found: Option<TaskId>)
        ensures
            found == self@.find_vpid(pid),
            self@.finds_vpid(pid, found),
    {
        let mut i: usize = 0;
        while i < self.tasks.len()
            invariant
                i <= self@.tasks.len(),
                forall|u: int| 0 <= u < i ==> !#[trigger] self@.is_vpid_of(pid, u),
            decreases self@.tasks.len() - i,
        {
            if self.tasks[i].hashed && self.tasks[i].vpid == pid {
                proof {
                    assert(self@.is_vpid_of(pid, i as int));
                    self@.lemma_find_vpid(pid, Some(i));
                }
                return Some(i);
            }
            i = i + 1;
        }
        proof {
            self@.lemma_find_vpid(pid, None);
        }
        None
    }
}

/// A reference leads to a task if there is one at that place that something still holds on to.
pub proof fn law_reference_leads_to_a_living_task(pm: ProcessManagerView, t: TaskId)
    ensures
        pm.upgrade(None) is None,
        t < pm.tasks.len() && pm.tasks[t as int].alive ==> pm.upgrade(Some(t)) == Some(t),
        !(t < pm.tasks.len() && pm.tasks[t as int].alive) ==> pm.upgrade(Some(t)) is None,
{
}

/// A number leads to the first task that can be found by its number and has that one, and to none
/// if there is no such task.
pub proof fn law_number_leads_to_the_first_task(pm: ProcessManagerView, pid: RawPid, t: TaskId)
    ensures
        t < pm.tasks.len() && pm.tasks[t as int].hashed && pm.tasks[t as int].raw_pid == pid && (
        forall|u: int|
            0 <= u < t ==> !((#[trigger] pm.tasks[u]).hashed && pm.tasks[u].raw_pid == pid))
            ==> pm.find(pid) == Some(t),
        t < pm.tasks.len() && pm.tasks[t as int].hashed && pm.tasks[t as int].vpid == pid && (
        forall|u: int|
            0 <= u < t ==> !((#[trigger] pm.tasks[u]).hashed && pm.tasks[u].vpid == pid))
            ==> pm.find_vpid(pid) == Some(t),
        (forall|u: int|
            0 <= u < pm.tasks.len() ==> !((#[trigger] pm.tasks[u]).hashed && pm.tasks[u].raw_pid
                == pid)) ==> pm.find(pid) is None,
        (forall|u: int|
            0 <= u < pm.tasks.len() ==> !((#[trigger] pm.tasks[u]).hashed && pm.tasks[u].vpid
                == pid)) ==> pm.find_vpid(pid) is None,
{
    if pm.finds(pid, Some(t)) {
        pm.lemma_find(pid, Some(t));
    }
    if pm.finds_vpid(pid, Some(t)) {
        pm.lemma_find_vpid(pid, Some(t));
    }
    if pm.finds(pid, None) {
        pm.lemma_find(pid, None);
    }
    if pm.finds_vpid(pid, None) {
        pm.lemma_find_vpid(pid, None);
    }
}

/// Another task at a place, another list, another signal state and something to be done change
/// just that.
pub proof fn law_tables_change_at_one_place(
    pm: ProcessManagerView,
    t: TaskId,
    pcb: ProcessControlBlock,
    pids: Seq<RawPid>,
    hand: SigHand,
    action: Action,
)
    requires
        pm.wf(),
        pm.has(t),
    ensures
        pm.with_task(t, pcb) == (ProcessManagerView {
            tasks: pm.tasks.update(t as int, pcb),
            ..pm
        }),
        pm.with_ptraced(t, pids) == (ProcessManagerView {
            ptraced: pm.ptraced.update(t as int, pids),
            ..pm
        }),
        pm.with_sighand(t, hand) == (ProcessManagerView {
            sighands: pm.sighands.update(pm.tasks[t as int].sighand as int, hand),
            ..pm
        }),
        pm.with_action(action) == (ProcessManagerView { actions: pm.actions.push(action), ..pm }),
{
}

} // verus!
