//! The preemption count of each processor: how deep preemption is disabled. It
//! belongs to the processor, not to the task that runs on it.
use crate::process::manager::{ProcessManager, ProcessManagerView};
use vstd::prelude::*;

verus! {

impl ProcessManagerView {
    /// The preemption count of the working processor.
    pub open spec fn count(self) -> usize {
        self.preempt_count[self.cpu.id as int]
    }

    /// The same with another preemption count of the working processor.
    pub open spec fn with_count(self, val: usize) -> ProcessManagerView {
        ProcessManagerView {
            preempt_count: self.preempt_count.update(self.cpu.id as int, val),
            ..self
        }
    }

    /// Preemption disabled once more.
    pub open spec fn preempt_disabled(self) -> ProcessManagerView {
        if self.init_done {
            self.with_count(self.count().wrapping_add(1))
        } else {
            self
        }
    }

    /// Preemption disabled once less; a count of 0 stays.
    pub open spec fn preempt_enabled(self) -> ProcessManagerView {
        if self.init_done {
            self.with_count(
                if self.count() == 0 {
                    0
                } else {
                    (self.count() - 1) as usize
                },
            )
        } else {
            self
        }
    }
}

/// The preemption count of the working processor.
pub fn preempt_count_val(pm: &ProcessManager) -> (count: usize)
    requires
        pm@.wf(),
    ensures
        count == pm@.count(),
{
    *current_preempt_count(pm)
}

/// The preemption count of the working processor, in its place.
pub fn current_preempt_count(pm: &ProcessManager) -> (count: &usize)
    requires
        pm@.wf(),
    ensures
        *count == pm@.count(),
{
    &pm.preempt_count[pm.cpu.id as usize]
}

/// Sets the preemption count of the working processor, after a context switch
/// or when the processor comes up.
pub fn set_preempt_count_val(pm: &mut ProcessManager, val: usize)
    requires
        old(pm)@.wf(),
    ensures
        final(pm)@ == old(pm)@.with_count(val),
{
    pm.preempt_count[pm.cpu.id as usize] = val;
}

/// Stands for one level of disabled preemption.
pub struct PreemptGuard;

impl PreemptGuard {
    /// Disables preemption.
    pub fn new(pm: &mut ProcessManager) -> (guard: PreemptGuard)
        requires
            old(pm)@.wf(),
        ensures
            final(pm)@ == old(pm)@.preempt_disabled(),
    {
        pm.preempt_disable();
        PreemptGuard
    }

    /// Enables preemption again.
    pub fn release(self, pm: &mut ProcessManager)
        requires
            old(pm)@.wf(),
        ensures
            final(pm)@ == old(pm)@.preempt_enabled(),
    {
        pm.preempt_enable();
    }
}

impl ProcessManager {
    /// Disables preemption on the working processor.
    pub fn preempt_disable(&mut self)
        requires
            old(self)@.wf(),
        ensures
            final(self)@ == old(self)@.preempt_disabled(),
    {
        if self.init_done {
            let count: usize = self.preempt_count[self.cpu.id as usize];
            self.preempt_count[self.cpu.id as usize] = count.wrapping_add(1);
        }
    }

    /// Enables preemption on the working processor without looking whether it
    /// should run another task. One call too many leaves the count at 0.
    pub fn preempt_enable_no_resched(&mut self)
        requires
            old(self)@.wf(),
        ensures
            final(self)@ == old(self)@.preempt_enabled(),
    {
        if self.init_done {
            let prev: usize = self.preempt_count[self.cpu.id as usize];
            if prev == 0 {
                self.preempt_count[self.cpu.id as usize] = 0;
            } else {
                self.preempt_count[self.cpu.id as usize] = prev - 1;
            }
        }
    }

    /// Enables preemption on the working processor.
    pub fn preempt_enable(&mut self)
        requires
            old(self)@.wf(),
        ensures
            final(self)@ == old(self)@.preempt_enabled(),
    {
        self.preempt_enable_no_resched();
    }
}

/// Disabling preemption and enabling it again changes nothing.
pub proof fn law_preempt_disable_enable_restores(pm: ProcessManagerView)
    requires
        pm.wf(),
        pm.count() < usize::MAX,
    ensures
        pm.preempt_disabled().preempt_enabled() == pm,
{
    assert(pm.preempt_disabled().preempt_enabled().preempt_count =~= pm.preempt_count);
}

/// Neither call touches the count of another processor.
pub proof fn law_preempt_count_is_per_cpu(pm: ProcessManagerView, other: int)
    requires
        pm.wf(),
        0 <= other < pm.preempt_count.len(),
        other != pm.cpu.id,
    ensures
        pm.preempt_disabled().preempt_count[other] == pm.preempt_count[other],
        pm.preempt_enabled().preempt_count[other] == pm.preempt_count[other],
{
}

/// Once processes are set up, disabling preemption counts one more on the working processor and
/// enabling it one less, but never less than none. Before that neither counts.
pub proof fn law_preemption_is_counted(pm: ProcessManagerView)
    requires
        pm.wf(),
    ensures
        ({
            let i = pm.cpu.id as int;
            let count = pm.preempt_count[i];
            &&& pm.init_done && count < usize::MAX ==> pm.preempt_disabled().preempt_count[i]
                == count + 1
            &&& pm.init_done && count > 0 ==> pm.preempt_enabled().preempt_count[i] == count - 1
            &&& pm.init_done && count == 0 ==> pm.preempt_enabled().preempt_count[i] == 0
            &&& !pm.init_done ==> pm.preempt_disabled() == pm && pm.preempt_enabled() == pm
            &&& pm.preempt_disabled().tasks == pm.tasks
            &&& pm.preempt_enabled().tasks == pm.tasks
            &&& pm.preempt_disabled().irq_enabled == pm.irq_enabled
            &&& pm.preempt_enabled().irq_enabled == pm.irq_enabled
        }),
{
}

} // verus!
