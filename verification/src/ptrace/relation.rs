//! Who traces whom.
use crate::error::SystemError;
use crate::interrupt::trap_frame::TrapFrame;
use crate::process::action::Action;
use crate::process::manager::{ProcessManager, ProcessManagerView};
use crate::process::pcb::{ExitState, ProcessControlBlock, TaskId};
use crate::process::signal::{PidType, RawPid, Signal};
use crate::ptrace::regs::X86_EFLAGS_TF;
use crate::ptrace::types::PtraceOptions;
use vstd::prelude::*;

verus! {

/// A list of process numbers without one of them.
pub open spec fn pids_without(pids: Seq<RawPid>, pid: RawPid) -> Seq<RawPid>
    decreases pids.len(),
{
    if pids.len() == 0 {
        pids
    } else {
        let rest = pids_without(pids.drop_last(), pid);
        if pids.last() == pid {
            rest
        } else {
            rest.push(pids.last())
        }
    }
}

/// A list of process numbers with one more at its end, unless it is there already.
pub open spec fn pids_with(pids: Seq<RawPid>, pid: RawPid) -> Seq<RawPid> {
    if pids.contains(pid) {
        pids
    } else {
        pids.push(pid)
    }
}

/// A number that was taken out of a list is not in it, and every other one still is.
pub proof fn lemma_pids_without(pids: Seq<RawPid>, pid: RawPid)
    ensures
        !pids_without(pids, pid).contains(pid),
        forall|other: RawPid|
            other != pid ==> (#[trigger] pids_without(pids, pid).contains(other) <==> pids.contains(
                other,
            )),
    decreases pids.len(),
{
    if pids.len() > 0 {
        let init = pids.drop_last();
        let last = pids.last();
        let rest = pids_without(init, pid);
        lemma_pids_without(init, pid);
        assert(pids =~= init.push(last));
        assert forall|other: RawPid| other != pid implies (#[trigger] pids_without(
            pids,
            pid,
        ).contains(other) <==> pids.contains(other)) by {
            lemma_push_contains(init, last, other);
            lemma_push_contains(rest, last, other);
            assert(rest.contains(other) <==> init.contains(other));
        }
        lemma_push_contains(rest, last, pid);
    }
}

/// What a list holds after something was put at its end.
proof fn lemma_push_contains(pids: Seq<RawPid>, last: RawPid, pid: RawPid)
    ensures
        pids.push(last).contains(pid) <==> pids.contains(pid) || pid == last,
{
    let longer = pids.push(last);
    if pids.contains(pid) {
        let i = choose|i: int| 0 <= i < pids.len() && pids[i] == pid;
        assert(longer[i] == pid);
    }
    if pid == last {
        assert(longer[pids.len() as int] == pid);
    }
    if longer.contains(pid) {
        let i = choose|i: int| 0 <= i < longer.len() && longer[i] == pid;
        if i < pids.len() {
            assert(pids[i] == pid);
        }
    }
}

/// Whether a list holds a process number.
fn contains_pid(pids: &Vec<RawPid>, pid: RawPid) -> (b: bool)
    ensures
        b == pids@.contains(pid),
{
    let mut i: usize = 0;
    while i < pids.len()
        invariant
            i <= pids@.len(),
            forall|k: int| 0 <= k < i ==> pids@[k] != pid,
        decreases pids@.len() - i,
    {
        if pids[i] == pid {
            assert(pids@[i as int] == pid);
            return true;
        }
        i = i + 1;
    }
    false
}

/// The list without a process number.
fn without_pid(pids: &Vec<RawPid>, pid: RawPid) -> (rest: Vec<RawPid>)
    ensures
        rest@ == pids_without(pids@, pid),
{
    let mut rest: Vec<RawPid> = Vec::new();
    let mut i: usize = 0;
    assert(pids@.take(0) =~= Seq::<RawPid>::empty());
    while i < pids.len()
        invariant
            i <= pids@.len(),
            rest@ == pids_without(pids@.take(i as int), pid),
        decreases pids@.len() - i,
    {
        let p = pids[i];
        proof {
            let next = pids@.take(i + 1);
            assert(next.drop_last() =~= pids@.take(i as int));
            assert(next.last() == p);
        }
        if p != pid {
            rest.push(p);
        }
        i = i + 1;
    }
    assert(pids@.take(i as int) =~= pids@);
    rest
}

impl ProcessControlBlock {
    pub open spec fn spec_with_ptracer(&self, ptracer: Option<TaskId>) -> ProcessControlBlock {
        ProcessControlBlock { ptracer, ..*self }
    }

    /// The task with another tracer.
    #[verifier::when_used_as_spec(spec_with_ptracer)]
    pub fn with_ptracer(&self, ptracer: Option<TaskId>) -> (pcb: ProcessControlBlock)
        ensures
            pcb == self.with_ptracer(ptracer),
    {
        ProcessControlBlock { ptracer, ..*self }
    }

    pub open spec fn spec_traced_by(&self, tracer: TaskId) -> ProcessControlBlock {
        self.with_ptracer(Some(tracer)).with_flags(self.flags.with_ptraced(true))
    }

    /// The task as it is traced.
    #[verifier::when_used_as_spec(spec_traced_by)]
    pub fn traced_by(&self, tracer: TaskId) -> (pcb: ProcessControlBlock)
        ensures
            pcb == self.traced_by(tracer),
    {
        self.with_ptracer(Some(tracer)).with_flags(self.flags.with_ptraced(true))
    }

    pub open spec fn spec_untraced(&self) -> ProcessControlBlock {
        self.with_ptracer(None).with_flags(self.flags.with_ptraced(false))
    }

    /// The task as nobody traces it.
    #[verifier::when_used_as_spec(spec_untraced)]
    pub fn untraced(&self) -> (pcb: ProcessControlBlock)
        ensures
            pcb == self.untraced(),
    {
        self.with_ptracer(None).with_flags(self.flags.with_ptraced(false))
    }

    pub open spec fn spec_is_in_tracing_stop(&self) -> bool {
        (self.ptrace_state.in_ptrace_stop || self.ptrace_state.listening)
            && self.sched_info.state.is_stopped()
    }

    /// Whether the task is stopped for its tracer, be it that the tracer only listens.
    #[verifier::when_used_as_spec(spec_is_in_tracing_stop)]
    pub fn is_in_tracing_stop(&self) -> (b: bool)
        ensures
            b == self.is_in_tracing_stop(),
    {
        (self.ptrace_state.in_ptrace_stop || self.ptrace_state.listening)
            && self.sched_info.state.is_stopped()
    }

    pub open spec fn spec_single_step_disabled(&self) -> ProcessControlBlock {
        if self.ptrace_state.forced_trap_flag {
            let frame = self.stop_frame();
            self.with_stop_frame(
                TrapFrame { rflags: frame.rflags & !X86_EFLAGS_TF, ..frame },
            ).with_ptrace_state(self.ptrace_state.with_forced_trap_flag(false))
        } else {
            *self
        }
    }

    /// The task without the trap flag that its tracer has set for single steps.
    #[verifier::when_used_as_spec(spec_single_step_disabled)]
    pub fn single_step_disabled(&self) -> (pcb: ProcessControlBlock)
        ensures
            pcb == self.single_step_disabled(),
    {
        if self.ptrace_state.forced_trap_flag {
            let frame = self.stop_frame();
            self.with_stop_frame(
                TrapFrame { rflags: frame.rflags & !X86_EFLAGS_TF, ..frame },
            ).with_ptrace_state(self.ptrace_state.with_forced_trap_flag(false))
        } else {
            *self
        }
    }

    pub open spec fn spec_stop_ended(&self) -> ProcessControlBlock {
        self.with_ptrace_state(self.ptrace_state.stop_cleared()).with_flags(
            self.flags.without_trace_work().without_stop_marks(),
        )
    }

    /// The task with nothing left of what its tracer asked for and of the current
    /// stop.
    #[verifier::when_used_as_spec(spec_stop_ended)]
    pub fn stop_ended(&self) -> (pcb: ProcessControlBlock)
        ensures
            pcb == self.stop_ended(),
    {
        self.with_ptrace_state(self.ptrace_state.stop_cleared()).with_flags(
            self.flags.without_trace_work().without_stop_marks(),
        )
    }
}

impl ProcessManagerView {
    /// Whether a task is traced.
    pub open spec fn is_ptraced(self, t: TaskId) -> bool {
        self.task(t).flags.ptraced && self.upgrade(self.task(t).ptracer) is Some
    }

    /// The task `tracee` is traced by `tracer`, and in its list.
    pub open spec fn linked(self, tracee: TaskId, tracer: TaskId) -> ProcessManagerView {
        self.with_task(tracee, self.task(tracee).traced_by(tracer)).with_ptraced(
            tracer,
            pids_with(self.ptraced[tracer as int], self.task(tracee).raw_pid),
        )
    }

    /// The task `tracee` is not in the list of its tracer, if it has one.
    pub open spec fn unlisted(self, tracee: TaskId) -> ProcessManagerView {
        match self.upgrade(self.task(tracee).ptracer) {
            Some(tracer) => self.with_ptraced(
                tracer,
                pids_without(self.ptraced[tracer as int], self.task(tracee).raw_pid),
            ),
            None => self,
        }
    }

    /// A parent that waits for its children is woken, if there is one.
    pub open spec fn wait_parent_woken(self, parent: Option<TaskId>) -> ProcessManagerView {
        match parent {
            Some(t) => self.with_action(Action::WakeWaitParent(t)),
            None => self,
        }
    }

    /// Every task that is traced is in the list of its tracer.
    pub open spec fn relation_wf(self) -> bool {
        forall|t: TaskId|
            self.has(t) && self.upgrade((#[trigger] self.task(t)).ptracer) is Some
                ==> self.ptraced[self.upgrade(self.task(t).ptracer)->Some_0 as int].contains(
                self.task(t).raw_pid,
            )
    }

    /// No two tasks have the same number.
    pub open spec fn pids_differ(self) -> bool {
        forall|t: TaskId, u: TaskId|
            self.has(t) && self.has(u) && t != u ==> (#[trigger] self.task(t)).raw_pid != (
            #[trigger] self.task(u)).raw_pid
    }
}

impl ProcessManager {
    /// Puts a process number into the list of a tracer, unless it is there already.
    fn list_tracee(&mut self, tracer: TaskId, pid: RawPid)
        requires
            tracer < old(self)@.ptraced.len(),
        ensures
            final(self)@ == old(self)@.with_ptraced(
                tracer,
                pids_with(old(self)@.ptraced[tracer as int], pid),
            ),
    {
        if !contains_pid(&self.ptraced[tracer], pid) {
            self.ptraced[tracer].push(pid);
        }
        assert(self@.ptraced =~= old(self)@.with_ptraced(
            tracer,
            pids_with(old(self)@.ptraced[tracer as int], pid),
        ).ptraced);
    }

    /// Takes a task out of the list of its tracer, if it has one.
    fn unlist_tracee(&mut self, tracee: TaskId)
        requires
            old(self)@.wf(),
            old(self)@.has(tracee),
        ensures
            final(self)@ == old(self)@.unlisted(tracee),
    {
        if let Some(tracer) = self.upgrade(self.tasks[tracee].ptracer) {
            let rest = without_pid(&self.ptraced[tracer], self.tasks[tracee].raw_pid);
            self.set_ptraced(tracer, rest);
        }
    }

    /// Wakes a parent that waits for its children, if there is one.
    pub fn wake_wait_parent(&mut self, parent: Option<TaskId>)
        ensures
            final(self)@ == old(self)@.wait_parent_woken(parent),
    {
        if let Some(t) = parent {
            self.act(Action::WakeWaitParent(t));
        }
    }
}

/// The task that traces one that asks to be traced: its parent, or the thread of the
/// parent that forked it.
pub open spec fn traceme_parent(pm: ProcessManagerView, child: TaskId) -> Option<TaskId> {
    match pm.upgrade(pm.task(child).real_parent) {
        None => None,
        Some(real_parent) => match pm.upgrade(pm.task(child).fork_parent) {
            Some(fork_parent) => if pm.task(fork_parent).tgid == pm.task(real_parent).tgid {
                Some(fork_parent)
            } else {
                Some(real_parent)
            },
            None => Some(real_parent),
        },
    }
}

fn traceme_parent_for(pm: &ProcessManager, child: TaskId) -> (res: Result<TaskId, SystemError>)
    requires
        pm@.has(child),
    ensures
        match res {
            Ok(parent) => traceme_parent(pm@, child) == Some(parent) && pm@.has(parent),
            Err(e) => e == SystemError::EPERM && traceme_parent(pm@, child) is None,
        },
{
    let real_parent = match pm.upgrade(pm.task(child).real_parent) {
        Some(t) => t,
        None => {
            return Err(SystemError::EPERM);
        },
    };
    let fork_parent = match pm.upgrade(pm.task(child).fork_parent) {
        Some(t) => t,
        None => {
            return Ok(real_parent);
        },
    };
    if pm.task(fork_parent).tgid == pm.task(real_parent).tgid {
        Ok(fork_parent)
    } else {
        Ok(real_parent)
    }
}

/// A task that is traced already, or whose parent is exiting, cannot ask to be traced.
fn traceme_allowed(pm: &ProcessManager, parent: TaskId, child: TaskId) -> (res: Result<
    (),
    SystemError,
>)
    requires
        pm@.has(parent),
        pm@.has(child),
    ensures
        match res {
            Ok(()) => !pm@.is_ptraced(child) && !pm@.task(parent).flags.exiting,
            Err(e) => e == SystemError::EPERM && (pm@.is_ptraced(child) || pm@.task(
                parent,
            ).flags.exiting),
        },
{
    if is_ptraced(pm, child) {
        return Err(SystemError::EPERM);
    }
    if pm.task(parent).flags.exiting {
        return Err(SystemError::EPERM);
    }
    Ok(())
}

/// Whether the running task may ask to be traced.
pub open spec fn can_traceme(pm: ProcessManagerView) -> bool {
    match traceme_parent(pm, pm.current) {
        Some(tracer) => pm.upgrade(pm.task(pm.current).ptracer) is None && !pm.task(
            tracer,
        ).flags.exiting,
        None => false,
    }
}

/// Has the running task traced by its parent.
pub fn traceme_current(pm: &mut ProcessManager) -> (res: Result<(), SystemError>)
    requires
        old(pm)@.wf(),
    ensures
        match res {
            Ok(()) => can_traceme(old(pm)@) && final(pm)@ == old(pm)@.linked(
                old(pm)@.current,
                traceme_parent(old(pm)@, old(pm)@.current)->Some_0,
            ),
            Err(e) => e == SystemError::EPERM && !can_traceme(old(pm)@) && final(pm)@ == old(pm)@,
        },
{
    let current = pm.current;
    let tracer = match traceme_parent_for(pm, current) {
        Ok(t) => t,
        Err(e) => {
            return Err(e);
        },
    };
    match traceme_allowed(pm, tracer, current) {
        Ok(()) => {},
        Err(e) => {
            return Err(e);
        },
    }
    let p = pm.task(current);
    if pm.upgrade(p.ptracer).is_some() {
        return Err(SystemError::EPERM);
    }
    let ghost before = pm@;
    pm.set_task(current, p.traced_by(tracer));
    pm.list_tracee(tracer, p.raw_pid);
    assert(pm@ == before.linked(current, tracer));
    Ok(())
}

/// What is left of the tracing of a task: it has no tracer, and the tracer and the parent
/// that wait for it look again.
pub open spec fn unlinked(pm: ProcessManagerView, tracee: TaskId) -> ProcessManagerView {
    let tracer = pm.upgrade(pm.task(tracee).ptracer);
    let parent = pm.upgrade(pm.task(tracee).real_parent);
    let off = pm.unlisted(tracee).with_task(tracee, pm.task(tracee).untraced());
    off.wait_parent_woken(tracer).wait_parent_woken(
        if parent == tracer {
            None
        } else {
            parent
        },
    )
}

/// Ends the tracing of a task without touching the task otherwise.
pub fn unlink_tracee(pm: &mut ProcessManager, tracee: TaskId)
    requires
        old(pm)@.wf(),
        old(pm)@.has(tracee),
    ensures
        final(pm)@ == unlinked(old(pm)@, tracee),
{
    let p = pm.task(tracee);
    let tracer = pm.upgrade(p.ptracer);
    let parent = pm.upgrade(p.real_parent);
    pm.unlist_tracee(tracee);
    pm.set_task(tracee, p.untraced());
    pm.wake_wait_parent(tracer);
    let other = match (parent, tracer) {
        (Some(a), Some(b)) => if a == b {
            None
        } else {
            parent
        },
        _ => parent,
    };
    pm.wake_wait_parent(other);
}

/// The tasks that a task traces.
pub fn tracees_of(pm: &ProcessManager, tracer: TaskId) -> (pids: Vec<RawPid>)
    requires
        pm@.wf(),
        pm@.has(tracer),
    ensures
        pids@ == pm@.ptraced[tracer as int],
{
    let mut pids: Vec<RawPid> = Vec::new();
    let mut i: usize = 0;
    while i < pm.ptraced[tracer].len()
        invariant
            pm@.wf(),
            pm@.has(tracer),
            i <= pm@.ptraced[tracer as int].len(),
            pids@ == pm@.ptraced[tracer as int].take(i as int),
        decreases pm@.ptraced[tracer as int].len() - i,
    {
        pids.push(pm.ptraced[tracer][i]);
        i = i + 1;
        assert(pids@ =~= pm@.ptraced[tracer as int].take(i as int));
    }
    assert(pids@ =~= pm@.ptraced[tracer as int]);
    pids
}

/// The task that traces a task.
pub fn ptracer_of(pm: &ProcessManager, tracee: TaskId) -> (tracer: Option<TaskId>)
    requires
        pm@.has(tracee),
    ensures
        tracer == pm@.upgrade(pm@.task(tracee).ptracer),
        tracer is Some ==> pm@.has(tracer->Some_0),
{
    pm.upgrade(pm.tasks[tracee].ptracer)
}

/// Whether a task is traced.
pub fn is_ptraced(pm: &ProcessManager, tracee: TaskId) -> (b: bool)
    requires
        pm@.has(tracee),
    ensures
        b == pm@.is_ptraced(tracee),
{
    pm.tasks[tracee].flags.ptraced && pm.upgrade(pm.tasks[tracee].ptracer).is_some()
}

/// How to wait for children.
#[derive(Debug, Clone, Copy, PartialEq, Eq, Structural)]
pub struct WaitOption {
    pub bits: u32,
}

impl WaitOption {
    /// Wait only for the children of the waiting thread itself.
    pub const WNOTHREAD: u32 = 0x2000_0000;

    pub open spec fn spec_contains(self, mask: u32) -> bool {
        self.bits & mask == mask
    }

    /// Whether every bit of `mask` is set.
    #[verifier::when_used_as_spec(spec_contains)]
    pub fn contains(self, mask: u32) -> (b: bool)
        ensures
            b == self.contains(mask),
    {
        self.bits & mask == mask
    }
}

/// Whether a waiter may wait for a task because it is traced: by the waiter itself, or by
/// another thread of its process unless it waits for its own only.
pub open spec fn waits_for_tracee(
    pm: ProcessManagerView,
    tracee: TaskId,
    waiter: TaskId,
    options: WaitOption,
) -> bool {
    match pm.upgrade(pm.task(tracee).ptracer) {
        Some(tracer) => {
            &&& tracer == waiter || (!options.contains(WaitOption::WNOTHREAD) && pm.task(
                tracer,
            ).tgid == pm.task(waiter).tgid)
            &&& pm.ptraced[tracer as int].contains(pm.task(tracee).raw_pid)
        },
        None => false,
    }
}

/// Whether a waiter may wait for a task because it is traced.
pub fn is_wait_tracee_of(
    pm: &ProcessManager,
    tracee: TaskId,
    waiter: TaskId,
    options: WaitOption,
) -> (b: bool)
    requires
        pm@.wf(),
        pm@.has(tracee),
        pm@.has(waiter),
    ensures
        b == waits_for_tracee(pm@, tracee, waiter, options),
{
    let tracer = match ptracer_of(pm, tracee) {
        Some(tracer) => tracer,
        None => {
            return false;
        },
    };
    let same_waiter = tracer == waiter;
    let same_thread_group = !options.contains(WaitOption::WNOTHREAD) && pm.task(tracer).tgid
        == pm.task(waiter).tgid;
    if !same_waiter && !same_thread_group {
        return false;
    }
    contains_pid(&pm.ptraced[tracer], pm.task(tracee).raw_pid)
}

impl ProcessControlBlock {
    pub open spec fn spec_has_permission_to_trace(&self, tracee: &ProcessControlBlock) -> bool {
        ||| self.tgid == tracee.tgid
        ||| {
            &&& self.cred.uid == tracee.cred.euid
            &&& self.cred.uid == tracee.cred.suid
            &&& self.cred.uid == tracee.cred.uid
            &&& self.cred.gid == tracee.cred.egid
            &&& self.cred.gid == tracee.cred.sgid
            &&& self.cred.gid == tracee.cred.gid
            &&& tracee.dumpable != 0
        }
        ||| self.cred.cap_sys_ptrace
    }

    /// Whether a task may trace another: one of its own process, one with the same
    /// identity throughout whose memory may be looked at, or any if it has the
    /// capability.
    #[verifier::when_used_as_spec(spec_has_permission_to_trace)]
    pub fn has_permission_to_trace(&self, tracee: &ProcessControlBlock) -> (b: bool)
        ensures
            b == self.has_permission_to_trace(tracee),
    {
        if self.tgid == tracee.tgid {
            return true;
        }
        let uid_match = self.cred.uid == tracee.cred.euid && self.cred.uid == tracee.cred.suid
            && self.cred.uid == tracee.cred.uid;
        let gid_match = self.cred.gid == tracee.cred.egid && self.cred.gid == tracee.cred.sgid
            && self.cred.gid == tracee.cred.gid;
        if uid_match && gid_match && tracee.dumpable != 0 {
            return true;
        }
        self.cred.cap_sys_ptrace
    }

    /// Has `tracee` traced by `tracer`.
    pub fn ptrace_link(pm: &mut ProcessManager, tracee: TaskId, tracer: TaskId) -> (res: Result<
        (),
        SystemError,
    >)
        requires
            old(pm)@.wf(),
            old(pm)@.has(tracee),
            old(pm)@.has(tracer),
        ensures
            match res {
                Ok(()) => can_link(old(pm)@, tracee, tracer) && final(pm)@ == old(pm)@.linked(
                    tracee,
                    tracer,
                ),
                Err(e) => e == SystemError::EPERM && !can_link(old(pm)@, tracee, tracer)
                    && final(pm)@ == old(pm)@,
            },
            final(pm)@.wf(),
    {
        let p = pm.task(tracee);
        if !pm.task(tracer).has_permission_to_trace(&p) {
            return Err(SystemError::EPERM);
        }
        if pm.upgrade(p.ptracer).is_some() {
            return Err(SystemError::EPERM);
        }
        if p.exit_state != ExitState::Running {
            return Err(SystemError::EPERM);
        }
        pm.set_task(tracee, p.traced_by(tracer));
        pm.list_tracee(tracer, p.raw_pid);
        assert(pm@ == old(pm)@.linked(tracee, tracer));
        Ok(())
    }

    /// Ends the tracing of a task, and lets it go on unless its process is stopped as a
    /// whole.
    pub fn ptrace_unlink(pm: &mut ProcessManager, tracee: TaskId) -> (res: Result<(), SystemError>)
        requires
            old(pm)@.wf(),
            old(pm)@.has(tracee),
        ensures
            res == Ok::<_, SystemError>(()),
            final(pm)@ == let_go(old(pm)@, tracee),
            final(pm)@.wf(),
    {
        let p = pm.task(tracee);
        pm.unlist_tracee(tracee);
        let in_ptrace_stop = p.is_in_tracing_stop();
        let group_stop_active = pm.sighand(tracee).stop_stopped;
        let q = p.untraced().single_step_disabled().stop_ended();
        pm.set_task(tracee, q);
        if in_ptrace_stop && !group_stop_active && p.alive {
            pm.act(Action::WakeupStop(tracee));
        }
        Ok(())
    }

    /// Whether the task is traced.
    pub fn is_traced(pm: &ProcessManager, tracee: TaskId) -> (b: bool)
        requires
            pm@.has(tracee),
        ensures
            b == pm@.is_ptraced(tracee),
    {
        is_ptraced(pm, tracee)
    }

    /// Whether the task is traced by `tracer`.
    pub fn is_traced_by(pm: &ProcessManager, tracee: TaskId, tracer: TaskId) -> (b: bool)
        requires
            pm@.has(tracee),
            pm@.has(tracer),
        ensures
            b == is_tracer_of(pm@, tracee, tracer),
    {
        match ptracer_of(pm, tracee) {
            Some(t) => t == tracer,
            None => false,
        }
    }
}

/// Whether `tracee` is traced by `tracer`.
pub open spec fn is_tracer_of(pm: ProcessManagerView, tracee: TaskId, tracer: TaskId) -> bool {
    pm.upgrade(pm.task(tracee).ptracer) == Some(tracer)
}

/// Whether `tracer` can begin to trace `tracee`: it may, nobody does, and the task is not
/// on its way out.
pub open spec fn can_link(pm: ProcessManagerView, tracee: TaskId, tracer: TaskId) -> bool {
    &&& pm.task(tracer).has_permission_to_trace(&pm.task(tracee))
    &&& pm.upgrade(pm.task(tracee).ptracer) is None
    &&& pm.task(tracee).exit_state == ExitState::Running
}

/// What is left when a tracer lets a task go: the task has no tracer and nothing of its
/// stop, and runs unless its process is stopped as a whole.
pub open spec fn let_go(pm: ProcessManagerView, tracee: TaskId) -> ProcessManagerView {
    let p = pm.task(tracee);
    let off = pm.unlisted(tracee).with_task(
        tracee,
        p.untraced().single_step_disabled().stop_ended(),
    );
    if p.is_in_tracing_stop() && !pm.sighand(tracee).stop_stopped && p.alive {
        off.with_action(Action::WakeupStop(tracee))
    } else {
        off
    }
}

impl ProcessControlBlock {
    pub open spec fn spec_released(&self) -> ProcessControlBlock {
        if self.is_in_tracing_stop() {
            self.untraced().single_step_disabled().stop_ended()
        } else {
            self.untraced().stop_ended()
        }
    }

    /// The task as it is left by a tracer that exits.
    #[verifier::when_used_as_spec(spec_released)]
    pub fn released(&self) -> (pcb: ProcessControlBlock)
        ensures
            pcb == self.released(),
    {
        if self.is_in_tracing_stop() {
            self.untraced().single_step_disabled().stop_ended()
        } else {
            self.untraced().stop_ended()
        }
    }
}

/// What happens to a task whose tracer exits. It is killed if that was asked for. If it
/// was in a tracing stop it runs, unless its process is stopped as a whole: then the
/// parent has to hear of that. The parent looks again in any case.
pub open spec fn tracer_gone(pm: ProcessManagerView, tracee: TaskId) -> ProcessManagerView {
    let p = pm.task(tracee);
    let off = pm.with_task(tracee, p.released());
    let killed = if p.ptrace_state.options.contains(PtraceOptions::EXITKILL) {
        off.with_action(
            Action::SendSignal {
                signal: Signal { nr: Signal::SIGKILL },
                info: None,
                to: tracee,
                scope: PidType::PID,
            },
        )
    } else {
        off
    };
    let on = if !p.is_in_tracing_stop() {
        killed
    } else if pm.sighand(tracee).stop_stopped {
        killed.with_sighand(tracee, pm.sighand(tracee).with_cld_stopped(true))
    } else {
        killed.with_action(Action::WakeupStop(tracee))
    };
    on.wait_parent_woken(pm.upgrade(p.real_parent))
}

/// What happens to the task with the number `pid`, which was in the list of a tracer that
/// exits. It need not be traced by that any more.
pub open spec fn tracee_let_go(
    pm: ProcessManagerView,
    tracer: TaskId,
    pid: RawPid,
) -> ProcessManagerView {
    match pm.find(pid) {
        Some(tracee) => if pm.upgrade(pm.task(tracee).ptracer) == Some(tracer) {
            tracer_gone(pm, tracee)
        } else {
            pm
        },
        None => pm,
    }
}

/// What happens to the tasks in a list, one after the other.
pub open spec fn tracees_let_go(
    pm: ProcessManagerView,
    tracer: TaskId,
    pids: Seq<RawPid>,
) -> ProcessManagerView
    decreases pids.len(),
{
    if pids.len() == 0 {
        pm
    } else {
        tracee_let_go(tracees_let_go(pm, tracer, pids.drop_last()), tracer, pids.last())
    }
}

/// Lets go a task whose tracer exits.
fn let_tracee_go(pm: &mut ProcessManager, tracee: TaskId)
    requires
        old(pm)@.wf(),
        old(pm)@.has(tracee),
    ensures
        final(pm)@ == tracer_gone(old(pm)@, tracee),
        final(pm)@.wf(),
        final(pm)@.tasks.len() == old(pm)@.tasks.len(),
{
    let p = pm.task(tracee);
    let exitkill = p.ptrace_state.options.contains(PtraceOptions::EXITKILL);
    let in_ptrace_stop = p.is_in_tracing_stop();
    let sighand = pm.sighand(tracee);
    let parent = pm.upgrade(p.real_parent);
    pm.set_task(tracee, p.released());
    if exitkill {
        pm.act(
            Action::SendSignal {
                signal: Signal { nr: Signal::SIGKILL },
                info: None,
                to: tracee,
                scope: PidType::PID,
            },
        );
    }
    if in_ptrace_stop {
        if sighand.stop_stopped {
            pm.set_sighand(tracee, sighand.with_cld_stopped(true));
        } else {
            pm.act(Action::WakeupStop(tracee));
        }
    }
    pm.wake_wait_parent(parent);
}

/// Lets go every task that a task which exits was tracing.
pub fn exit_ptrace(pm: &mut ProcessManager, tracer: TaskId)
    requires
        old(pm)@.wf(),
        old(pm)@.has(tracer),
    ensures
        final(pm)@ == tracees_let_go(
            old(pm)@.with_ptraced(tracer, Seq::empty()),
            tracer,
            old(pm)@.ptraced[tracer as int],
        ),
        final(pm)@.wf(),
{
    let traced_pids = tracees_of(pm, tracer);
    let ghost pids = traced_pids@;
    pm.set_ptraced(tracer, Vec::new());
    let ghost start = pm@;
    assert(start == old(pm)@.with_ptraced(tracer, Seq::empty()));
    let mut i: usize = 0;
    assert(pids.take(0) =~= Seq::<RawPid>::empty());
    while i < traced_pids.len()
        invariant
            i <= pids.len(),
            traced_pids@ == pids,
            pm@ == tracees_let_go(start, tracer, pids.take(i as int)),
            pm@.wf(),
        decreases pids.len() - i,
    {
        let pid = traced_pids[i];
        proof {
            let next = pids.take(i + 1);
            assert(next.drop_last() =~= pids.take(i as int));
            assert(next.last() == pid);
        }
        if let Some(tracee) = pm.find(pid) {
            let mine = match ptracer_of(pm, tracee) {
                Some(t) => t == tracer,
                None => false,
            };
            if mine {
                let_tracee_go(pm, tracee);
            }
        }
        i = i + 1;
    }
    assert(pids.take(i as int) =~= pids);
}

/// A change to the list of a tracer: where the number of a task is, what it is, and what
/// it becomes.
#[derive(Debug, Clone, Copy, PartialEq, Eq, Structural)]
pub struct TraceePidUpdate {
    pub tracer: TaskId,
    pub index: usize,
    pub old_pid: RawPid,
    pub new_pid: RawPid,
}

/// The changes to the lists of tracers when two tasks exchange their numbers.
#[derive(Debug, Clone, Copy, PartialEq, Eq)]
pub struct TraceePidExchangePlan {
    pub left: Option<TraceePidUpdate>,
    pub right: Option<TraceePidUpdate>,
}

impl TraceePidUpdate {
    /// Whether the number is where the change expects it.
    pub open spec fn fits(self, pm: ProcessManagerView) -> bool {
        &&& self.tracer < pm.ptraced.len()
        &&& self.index < pm.ptraced[self.tracer as int].len()
        &&& pm.ptraced[self.tracer as int][self.index as int] == self.old_pid
    }

    /// The lists after the change.
    pub open spec fn applied(self, pm: ProcessManagerView) -> ProcessManagerView {
        pm.with_ptraced(
            self.tracer,
            pm.ptraced[self.tracer as int].update(self.index as int, self.new_pid),
        )
    }

    /// Whether this changes the number of a task from `old_pid` to `new_pid` where its
    /// tracer has it first.
    pub open spec fn is_for(
        self,
        pm: ProcessManagerView,
        tracer: TaskId,
        old_pid: RawPid,
        new_pid: RawPid,
    ) -> bool {
        &&& self.tracer == tracer
        &&& self.old_pid == old_pid
        &&& self.new_pid == new_pid
        &&& self.fits(pm)
        &&& forall|k: int| 0 <= k < self.index ==> pm.ptraced[tracer as int][k] != old_pid
    }
}

/// Whether the tracer of a task, if it has one, has the number `pid` in its list.
pub open spec fn tracer_lists(pm: ProcessManagerView, t: TaskId, pid: RawPid) -> bool {
    match pm.upgrade(pm.task(t).ptracer) {
        Some(tracer) => pm.ptraced[tracer as int].contains(pid),
        None => true,
    }
}

/// Whether a change is the one that the tracer of a task needs.
pub open spec fn is_update_for(
    pm: ProcessManagerView,
    t: TaskId,
    old_pid: RawPid,
    new_pid: RawPid,
    update: Option<TraceePidUpdate>,
) -> bool {
    match pm.upgrade(pm.task(t).ptracer) {
        Some(tracer) => update is Some && update->Some_0.is_for(pm, tracer, old_pid, new_pid),
        None => update is None,
    }
}

/// Finds where the tracer of a task has its number.
fn prepare_update(
    pm: &ProcessManager,
    t: TaskId,
    old_pid: RawPid,
    new_pid: RawPid,
) -> (update: Option<TraceePidUpdate>)
    requires
        pm@.wf(),
        pm@.has(t),
        tracer_lists(pm@, t, old_pid),
    ensures
        is_update_for(pm@, t, old_pid, new_pid, update),
{
    let tracer = match ptracer_of(pm, t) {
        Some(tracer) => tracer,
        None => {
            return None;
        },
    };
    let ghost pids = pm@.ptraced[tracer as int];
    let len: usize = pm.ptraced[tracer].len();
    let mut index: usize = 0;
    while pm.ptraced[tracer][index] != old_pid
        invariant
            pm@.wf(),
            pm@.has(tracer),
            pids == pm@.ptraced[tracer as int],
            len == pids.len(),
            index < len,
            pids.contains(old_pid),
            forall|k: int| 0 <= k < index ==> pids[k] != old_pid,
        decreases pids.len() - index,
    {
        proof {
            let i = choose|i: int| 0 <= i < pids.len() && pids[i] == old_pid;
            assert(index < i);
        }
        index = index + 1;
    }
    Some(TraceePidUpdate { tracer, index, old_pid, new_pid })
}

/// Finds what has to change in the lists of tracers when two tasks exchange their
/// numbers.
pub fn prepare_tracee_pid_exchange_locked(
    pm: &ProcessManager,
    left: TaskId,
    right: TaskId,
    left_old_pid: RawPid,
    right_old_pid: RawPid,
) -> (plan: TraceePidExchangePlan)
    requires
        pm@.wf(),
        pm@.has(left),
        pm@.has(right),
        tracer_lists(pm@, left, left_old_pid),
        tracer_lists(pm@, right, right_old_pid),
    ensures
        is_update_for(pm@, left, left_old_pid, right_old_pid, plan.left),
        is_update_for(pm@, right, right_old_pid, left_old_pid, plan.right),
{
    let left_update = prepare_update(pm, left, left_old_pid, right_old_pid);
    let right_update = prepare_update(pm, right, right_old_pid, left_old_pid);
    TraceePidExchangePlan { left: left_update, right: right_update }
}

/// The lists after a change, if there is one.
pub open spec fn update_applied(
    pm: ProcessManagerView,
    update: Option<TraceePidUpdate>,
) -> ProcessManagerView {
    match update {
        Some(u) => u.applied(pm),
        None => pm,
    }
}

/// Changes the list of a tracer.
fn apply_update(pm: &mut ProcessManager, update: Option<TraceePidUpdate>)
    requires
        update is Some ==> update->Some_0.fits(old(pm)@),
    ensures
        final(pm)@ == update_applied(old(pm)@, update),
{
    if let Some(u) = update {
        pm.ptraced[u.tracer][u.index] = u.new_pid;
        assert(pm@.ptraced =~= u.applied(old(pm)@).ptraced);
    }
}

/// Changes the lists of tracers after two tasks have exchanged their numbers.
pub fn commit_tracee_pid_exchange_locked(pm: &mut ProcessManager, plan: TraceePidExchangePlan)
    requires
        plan.left is Some ==> plan.left->Some_0.fits(old(pm)@),
        plan.right is Some ==> plan.right->Some_0.fits(update_applied(old(pm)@, plan.left)),
    ensures
        final(pm)@ == update_applied(update_applied(old(pm)@, plan.left), plan.right),
{
    apply_update(pm, plan.left);
    apply_update(pm, plan.right);
}

/// A task that was linked to a tracer is traced by it, is in its list, and everything
/// else about who traces whom stays in order.
pub proof fn law_linked_task_is_traced(pm: ProcessManagerView, tracee: TaskId, tracer: TaskId)
    requires
        pm.wf(),
        pm.has(tracee),
        pm.has(tracer),
        pm.task(tracer).alive,
    ensures
        pm.linked(tracee, tracer).is_ptraced(tracee),
        pm.linked(tracee, tracer).upgrade(pm.linked(tracee, tracer).task(tracee).ptracer) == Some(
            tracer,
        ),
        pm.linked(tracee, tracer).ptraced[tracer as int].contains(pm.task(tracee).raw_pid),
        pm.relation_wf() ==> pm.linked(tracee, tracer).relation_wf(),
{
    let after = pm.linked(tracee, tracer);
    let pid = pm.task(tracee).raw_pid;
    let pids = pm.ptraced[tracer as int];
    lemma_push_contains(pids, pid, pid);
    if pm.relation_wf() {
        assert forall|t: TaskId|
            after.has(t) && after.upgrade((#[trigger] after.task(t)).ptracer)
                is Some implies after.ptraced[after.upgrade(
            after.task(t).ptracer,
        )->Some_0 as int].contains(after.task(t).raw_pid) by {
            if t != tracee {
                assert(after.task(t) == pm.task(t));
                let other = pm.upgrade(pm.task(t).ptracer)->Some_0;
                assert(pm.ptraced[other as int].contains(pm.task(t).raw_pid));
                lemma_push_contains(pids, pid, pm.task(t).raw_pid);
            }
        }
    }
}

/// Letting a task go touches its tracing only.
proof fn lemma_untraced(p: ProcessControlBlock)
    ensures
        p.untraced().same_identity(p),
        p.untraced().ptracer is None,
        !p.untraced().flags.ptraced,
        p.untraced().single_step_disabled().stop_ended().same_identity(p),
        p.untraced().single_step_disabled().stop_ended().ptracer is None,
        !p.untraced().single_step_disabled().stop_ended().flags.ptraced,
        p.released().same_identity(p),
        p.released().ptracer is None,
        !p.released().flags.ptraced,
{
}

/// A task that was taken from its tracer is not traced, and the list of the tracer does
/// not name it any more. Everything else about who traces whom stays in order, as long as
/// no two tasks have the same number.
pub proof fn law_unlinked_task_is_not_traced(pm: ProcessManagerView, tracee: TaskId)
    requires
        pm.wf(),
        pm.has(tracee),
    ensures
        !unlinked(pm, tracee).is_ptraced(tracee),
        unlinked(pm, tracee).task(tracee).ptracer is None,
        pm.upgrade(pm.task(tracee).ptracer) is Some ==> !unlinked(pm, tracee).ptraced[pm.upgrade(
            pm.task(tracee).ptracer,
        )->Some_0 as int].contains(pm.task(tracee).raw_pid),
        pm.relation_wf() && pm.pids_differ() ==> unlinked(pm, tracee).relation_wf(),
{
    lemma_untraced(pm.task(tracee));
    if pm.upgrade(pm.task(tracee).ptracer) is Some {
        let tracer = pm.upgrade(pm.task(tracee).ptracer)->Some_0;
        lemma_pids_without(pm.ptraced[tracer as int], pm.task(tracee).raw_pid);
    }
    if pm.relation_wf() && pm.pids_differ() {
        lemma_unlisted_keeps_relation(pm, unlinked(pm, tracee), tracee);
    }
}

/// The same holds of a task that its tracer let go, which has nothing left of its stop.
pub proof fn law_task_that_was_let_go_is_not_traced(pm: ProcessManagerView, tracee: TaskId)
    requires
        pm.wf(),
        pm.has(tracee),
    ensures
        !let_go(pm, tracee).is_ptraced(tracee),
        let_go(pm, tracee).task(tracee).ptracer is None,
        !let_go(pm, tracee).task(tracee).is_in_tracing_stop(),
        pm.upgrade(pm.task(tracee).ptracer) is Some ==> !let_go(pm, tracee).ptraced[pm.upgrade(
            pm.task(tracee).ptracer,
        )->Some_0 as int].contains(pm.task(tracee).raw_pid),
        pm.relation_wf() && pm.pids_differ() ==> let_go(pm, tracee).relation_wf(),
{
    lemma_untraced(pm.task(tracee));
    if pm.upgrade(pm.task(tracee).ptracer) is Some {
        let tracer = pm.upgrade(pm.task(tracee).ptracer)->Some_0;
        lemma_pids_without(pm.ptraced[tracer as int], pm.task(tracee).raw_pid);
    }
    if pm.relation_wf() && pm.pids_differ() {
        lemma_unlisted_keeps_relation(pm, let_go(pm, tracee), tracee);
    }
}

/// Taking a task from its tracer keeps the lists of the others in order.
proof fn lemma_unlisted_keeps_relation(
    pm: ProcessManagerView,
    after: ProcessManagerView,
    tracee: TaskId,
)
    requires
        pm.wf(),
        pm.has(tracee),
        pm.relation_wf(),
        pm.pids_differ(),
        after.ptraced == pm.unlisted(tracee).ptraced,
        after.tasks.len() == pm.tasks.len(),
        after.task(tracee).ptracer is None,
        after.task(tracee).alive == pm.task(tracee).alive,
        forall|t: TaskId|
            pm.has(t) && t != tracee ==> #[trigger] after.task(t) == pm.task(t),
    ensures
        after.relation_wf(),
{
    let pid = pm.task(tracee).raw_pid;
    assert forall|t: TaskId|
        after.has(t) && after.upgrade((#[trigger] after.task(t)).ptracer)
            is Some implies after.ptraced[after.upgrade(
        after.task(t).ptracer,
    )->Some_0 as int].contains(after.task(t).raw_pid) by {
        assert(t != tracee);
        let other = after.upgrade(after.task(t).ptracer)->Some_0;
        assert(after.task(other).alive == pm.task(other).alive);
        assert(pm.upgrade(pm.task(t).ptracer) == Some(other));
        assert(pm.ptraced[other as int].contains(pm.task(t).raw_pid));
        assert(pm.task(t).raw_pid != pid);
        if pm.upgrade(pm.task(tracee).ptracer) is Some {
            let tracer = pm.upgrade(pm.task(tracee).ptracer)->Some_0;
            lemma_pids_without(pm.ptraced[tracer as int], pid);
        }
    }
}

impl ProcessManagerView {
    /// The tasks are who they were, and nobody has got a tracer.
    pub open spec fn only_loses_tracers(self, after: ProcessManagerView) -> bool {
        &&& after.wf()
        &&& after.tasks.len() == self.tasks.len()
        &&& after.ptraced == self.ptraced
        &&& forall|t: TaskId|
            self.has(t) ==> (#[trigger] after.task(t)).same_identity(self.task(t)) && (
            after.task(t).ptracer is None || after.task(t).ptracer == self.task(t).ptracer)
    }
}

/// What happens to one task when its tracer exits takes its tracer from it, and leaves the
/// identity of all tasks alone.
proof fn lemma_tracee_let_go(pm: ProcessManagerView, tracer: TaskId, pid: RawPid)
    requires
        pm.wf(),
        pm.tasks.len() <= usize::MAX,
    ensures
        pm.only_loses_tracers(tracee_let_go(pm, tracer, pid)),
        pm.find(pid) is Some ==> tracee_let_go(pm, tracer, pid).upgrade(
            tracee_let_go(pm, tracer, pid).task(pm.find(pid)->Some_0).ptracer,
        ) != Some(tracer),
{
    lemma_find_is_found(pm, pid);
    if pm.find(pid) is Some {
        lemma_untraced(pm.task(pm.find(pid)->Some_0));
    }
}

/// Tasks that are who they were are found where they were found.
proof fn lemma_find_same(pm: ProcessManagerView, after: ProcessManagerView, pid: RawPid)
    requires
        pm.tasks.len() <= usize::MAX,
        pm.only_loses_tracers(after),
    ensures
        after.find(pid) == pm.find(pid),
{
    lemma_find_is_found(pm, pid);
    assert forall|u: int| 0 <= u < pm.tasks.len() implies pm.is_pid_of(pid, u)
        == #[trigger] after.is_pid_of(pid, u) by {
        assert(after.task(u as usize).same_identity(pm.task(u as usize)));
    }
    let found = pm.find(pid);
    match found {
        Some(t) => {
            assert(after.is_pid_of(pid, t as int));
            assert forall|u: int| 0 <= u < t implies !#[trigger] after.is_pid_of(pid, u) by {
                assert(!pm.is_pid_of(pid, u));
            }
        },
        None => {
            assert forall|u: int|
                0 <= u < after.tasks.len() implies !#[trigger] after.is_pid_of(pid, u) by {
                assert(!pm.is_pid_of(pid, u));
            }
        },
    }
    assert(after.finds(pid, found));
    after.lemma_find(pid, found);
}

/// Losing tracers twice is losing tracers.
proof fn lemma_only_loses_tracers(
    pm: ProcessManagerView,
    mid: ProcessManagerView,
    after: ProcessManagerView,
)
    requires
        pm.only_loses_tracers(mid),
        mid.only_loses_tracers(after),
    ensures
        pm.only_loses_tracers(after),
{
    assert forall|t: TaskId| pm.has(t) implies (#[trigger] after.task(t)).same_identity(
        pm.task(t),
    ) && (after.task(t).ptracer is None || after.task(t).ptracer == pm.task(t).ptracer) by {
        assert(mid.task(t).same_identity(pm.task(t)));
    }
}

/// After a task that exits has let go those in its list, it traces none of them.
proof fn lemma_tracees_let_go(pm: ProcessManagerView, tracer: TaskId, pids: Seq<RawPid>)
    requires
        pm.wf(),
        pm.tasks.len() <= usize::MAX,
    ensures
        pm.only_loses_tracers(tracees_let_go(pm, tracer, pids)),
        forall|i: int|
            0 <= i < pids.len() && pm.find(#[trigger] pids[i]) is Some ==> tracees_let_go(
                pm,
                tracer,
                pids,
            ).upgrade(
                tracees_let_go(pm, tracer, pids).task(pm.find(pids[i])->Some_0).ptracer,
            ) != Some(tracer),
    decreases pids.len(),
{
    let after = tracees_let_go(pm, tracer, pids);
    if pids.len() > 0 {
        let mid = tracees_let_go(pm, tracer, pids.drop_last());
        lemma_tracees_let_go(pm, tracer, pids.drop_last());
        lemma_tracee_let_go(mid, tracer, pids.last());
        lemma_only_loses_tracers(pm, mid, after);
        lemma_find_same(pm, mid, pids.last());
        assert forall|i: int|
            0 <= i < pids.len() && pm.find(#[trigger] pids[i]) is Some implies after.upgrade(
            after.task(pm.find(pids[i])->Some_0).ptracer,
        ) != Some(tracer) by {
            if i < pids.len() - 1 {
                let t = pm.find(pids[i])->Some_0;
                lemma_find_is_found(pm, pids[i]);
                assert(pids.drop_last()[i] == pids[i]);
                assert(mid.upgrade(mid.task(t).ptracer) != Some(tracer));
                assert(after.task(t).same_identity(mid.task(t)));
                assert(after.task(tracer).same_identity(mid.task(tracer)));
            }
        }
    } else {
        assert forall|t: TaskId| pm.has(t) implies (#[trigger] after.task(t)).same_identity(
            pm.task(t),
        ) by {
            assert(pm.task(t).same_identity(pm.task(t)));
        }
    }
}

/// A task that has exited traces nobody: every task that it traced, and that can be found
/// by its number, has no tracer any more, and its list is empty.
pub proof fn law_exit_frees_every_tracee(pm: ProcessManagerView, tracer: TaskId, tracee: TaskId)
    requires
        pm.wf(),
        pm.tasks.len() <= usize::MAX,
        pm.relation_wf(),
        pm.has(tracer),
        pm.has(tracee),
        pm.find(pm.task(tracee).raw_pid) == Some(tracee),
    ensures
        ({
            let after = tracees_let_go(
                pm.with_ptraced(tracer, Seq::empty()),
                tracer,
                pm.ptraced[tracer as int],
            );
            &&& after.upgrade(after.task(tracee).ptracer) != Some(tracer)
            &&& after.ptraced[tracer as int] == Seq::<RawPid>::empty()
        }),
{
    let start = pm.with_ptraced(tracer, Seq::empty());
    let pids = pm.ptraced[tracer as int];
    let after = tracees_let_go(start, tracer, pids);
    let pid = pm.task(tracee).raw_pid;
    lemma_tracees_let_go(start, tracer, pids);
    assert(after.task(tracee).same_identity(start.task(tracee)));
    assert(after.task(tracer).same_identity(start.task(tracer)));
    if pm.upgrade(pm.task(tracee).ptracer) == Some(tracer) {
        assert(pids.contains(pid));
        let i = choose|i: int| 0 <= i < pids.len() && pids[i] == pid;
        lemma_find_is_found(pm, pid);
        assert forall|u: int| 0 <= u < pm.tasks.len() implies pm.is_pid_of(pid, u)
            == #[trigger] start.is_pid_of(pid, u) by {}
        assert(start.is_pid_of(pid, tracee as int));
        assert forall|u: int| 0 <= u < tracee implies !#[trigger] start.is_pid_of(pid, u) by {
            assert(!pm.is_pid_of(pid, u));
        }
        assert(start.finds(pid, Some(tracee)));
        start.lemma_find(pid, Some(tracee));
        assert(start.find(pids[i]) == Some(tracee));
    }
}

/// What looking up a number gives is what is looked for.
proof fn lemma_find_is_found(pm: ProcessManagerView, pid: RawPid)
    requires
        pm.tasks.len() <= usize::MAX,
    ensures
        pm.finds(pid, pm.find(pid)),
{
    if exists|u: int| 0 <= u < pm.tasks.len() && #[trigger] pm.is_pid_of(pid, u) {
        let u = choose|u: int| 0 <= u < pm.tasks.len() && #[trigger] pm.is_pid_of(pid, u);
        lemma_first_of(pm, pid, u);
    } else {
        assert(pm.finds(pid, None));
    }
}

/// Where a number is found at all, it is found somewhere first.
proof fn lemma_first_of(pm: ProcessManagerView, pid: RawPid, u: int)
    requires
        0 <= u < pm.tasks.len(),
        pm.tasks.len() <= usize::MAX,
        pm.is_pid_of(pid, u),
    ensures
        exists|found: Option<TaskId>| pm.finds(pid, found),
    decreases u,
{
    if exists|w: int| 0 <= w < u && #[trigger] pm.is_pid_of(pid, w) {
        let w = choose|w: int| 0 <= w < u && #[trigger] pm.is_pid_of(pid, w);
        lemma_first_of(pm, pid, w);
    } else {
        assert(pm.finds(pid, Some(u as usize)));
    }
}

/// Two tasks have exchanged their numbers.
pub open spec fn pids_exchanged(
    pm: ProcessManagerView,
    left: TaskId,
    right: TaskId,
) -> ProcessManagerView {
    let l = pm.task(left);
    let r = pm.task(right);
    pm.with_task(left, ProcessControlBlock { raw_pid: r.raw_pid, ..l }).with_task(
        right,
        ProcessControlBlock { raw_pid: l.raw_pid, ..r },
    )
}

/// When two tasks exchange their numbers, what was prepared before can be committed
/// after, and then every task that is traced is still in the list of its tracer.
pub proof fn law_pid_exchange_keeps_lists(
    pm: ProcessManagerView,
    left: TaskId,
    right: TaskId,
    plan: TraceePidExchangePlan,
)
    requires
        pm.wf(),
        pm.relation_wf(),
        pm.pids_differ(),
        pm.has(left),
        pm.has(right),
        left != right,
        is_update_for(pm, left, pm.task(left).raw_pid, pm.task(right).raw_pid, plan.left),
        is_update_for(pm, right, pm.task(right).raw_pid, pm.task(left).raw_pid, plan.right),
    ensures
        ({
            let swapped = pids_exchanged(pm, left, right);
            let mid = update_applied(swapped, plan.left);
            &&& plan.left is Some ==> plan.left->Some_0.fits(swapped)
            &&& plan.right is Some ==> plan.right->Some_0.fits(mid)
            &&& update_applied(mid, plan.right).relation_wf()
        }),
{
    let lpid = pm.task(left).raw_pid;
    let rpid = pm.task(right).raw_pid;
    assert(lpid != rpid);
    let swapped = pids_exchanged(pm, left, right);
    let mid = update_applied(swapped, plan.left);
    let after = update_applied(mid, plan.right);
    assert(swapped.ptraced == pm.ptraced);
    assert forall|t: TaskId| after.has(t) implies (#[trigger] after.task(t)).alive == pm.task(
        t,
    ).alive && after.task(t).ptracer == pm.task(t).ptracer && after.task(t).raw_pid == if t
        == left {
        rpid
    } else if t == right {
        lpid
    } else {
        pm.task(t).raw_pid
    } by {}
    assert forall|t: TaskId|
        after.has(t) && after.upgrade((#[trigger] after.task(t)).ptracer)
            is Some implies after.ptraced[after.upgrade(
        after.task(t).ptracer,
    )->Some_0 as int].contains(after.task(t).raw_pid) by {
        let tracer = after.upgrade(after.task(t).ptracer)->Some_0;
        assert(after.task(tracer).alive == pm.task(tracer).alive);
        assert(pm.upgrade(pm.task(t).ptracer) == Some(tracer));
        let before = pm.ptraced[tracer as int];
        let list = after.ptraced[tracer as int];
        assert(list.len() == before.len());
        if t == left {
            let i = plan.left->Some_0.index as int;
            assert(before[i] == lpid);
            assert(list[i] == rpid);
        } else if t == right {
            let i = plan.right->Some_0.index as int;
            assert(before[i] == rpid);
            assert(list[i] == lpid);
        } else {
            let pid = pm.task(t).raw_pid;
            assert(before.contains(pid));
            assert(pid != lpid && pid != rpid) by {
                assert(pm.task(left).raw_pid != pm.task(t).raw_pid);
                assert(pm.task(right).raw_pid != pm.task(t).raw_pid);
            }
            let i = choose|i: int| 0 <= i < before.len() && before[i] == pid;
            assert(list[i] == pid);
        }
    }
}

} // verus!
