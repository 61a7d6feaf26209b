//! Spin locks. A processor that holds one is not preempted, and depending on how
//! the lock was taken it takes no interrupts, or does none of the work that
//! interrupts defer.
use crate::error::SystemError;
use crate::process::manager::{ProcessManager, ProcessManagerView};
use vstd::prelude::*;

verus! {

/// A spin lock and what it protects.
#[derive(Debug, Copy)]
pub struct SpinLock<T> {
    pub locked: bool,
    pub data: T,
}

impl<T: Copy> Clone for SpinLock<T> {
    fn clone(&self) -> (lock: SpinLock<T>)
        ensures
            lock == *self,
    {
        *self
    }
}

/// Whether interrupts were on before they were switched off.
#[derive(Debug, Clone, Copy, PartialEq, Eq, Structural)]
pub struct IrqFlagsGuard {
    pub was_enabled: bool,
}

/// Stands for a spin lock that is held.
#[derive(Debug, PartialEq, Eq, Structural)]
pub struct SpinLockGuard {
    /// The interrupt state to go back to, where taking the lock changed it.
    pub irq_flag: Option<IrqFlagsGuard>,
}

/// Stands for a spin lock that is held while deferred work is disabled.
#[derive(Debug, PartialEq, Eq, Structural)]
pub struct SpinLockBhGuard {
    pub guard: SpinLockGuard,
}

impl ProcessManagerView {
    /// The working processor with interrupts off.
    pub open spec fn irq_off(self) -> ProcessManagerView {
        ProcessManagerView { irq_enabled: false, ..self }
    }

    /// The working processor with the interrupt state of a guard.
    pub open spec fn irq_restored(self, guard: Option<IrqFlagsGuard>) -> ProcessManagerView {
        match guard {
            Some(g) => ProcessManagerView { irq_enabled: g.was_enabled, ..self },
            None => self,
        }
    }

    /// What is left of the working processor once a lock is given back.
    pub open spec fn unlocked(self, guard: SpinLockGuard) -> ProcessManagerView {
        self.irq_restored(guard.irq_flag).preempt_enabled()
    }
}

impl ProcessManager {
    /// Switches interrupts off and tells whether they were on.
    pub fn save_and_disable_irq(&mut self) -> (guard: IrqFlagsGuard)
        ensures
            guard.was_enabled == old(self)@.irq_enabled,
            final(self)@ == old(self)@.irq_off(),
    {
        let guard = IrqFlagsGuard { was_enabled: self.irq_enabled };
        self.irq_enabled = false;
        guard
    }

    /// Goes back to an earlier interrupt state.
    pub fn restore_irq(&mut self, guard: Option<IrqFlagsGuard>)
        ensures
            final(self)@ == old(self)@.irq_restored(guard),
    {
        if let Some(g) = guard {
            self.irq_enabled = g.was_enabled;
        }
    }
}

impl SpinLockGuard {
    /// Forgets the guard: the lock stays held, and nothing is restored.
    pub fn leak<T>(this: SpinLockGuard, lock: &mut SpinLock<T>) -> (data: &mut T)
        ensures
            *data == old(lock).data,
            *final(lock) == (SpinLock { locked: old(lock).locked, data: *final(data) }),
    {
        &mut lock.data
    }
}

impl<T> SpinLock<T> {
    /// What the lock protects, for a caller that keeps others from changing it in
    /// some other way.
    pub fn get_assume_locked(&self) -> (data: &T)
        ensures
            *data == self.data,
    {
        &self.data
    }

    /// A lock that is free.
    pub fn new(value: T) -> (lock: SpinLock<T>)
        ensures
            lock == (SpinLock { locked: false, data: value }),
    {
        SpinLock { locked: false, data: value }
    }

    /// Takes the lock and disables preemption. There is no way on while somebody
    /// else holds the lock.
    pub fn lock(&mut self, pm: &mut ProcessManager) -> (guard: SpinLockGuard)
        requires
            !old(self).locked,
            old(pm)@.wf(),
        ensures
            guard.irq_flag == None::<IrqFlagsGuard>,
            *final(self) == (SpinLock { locked: true, ..*old(self) }),
            final(pm)@ == old(pm)@.preempt_disabled(),
    {
        pm.preempt_disable();
        let _ = self.inner_try_lock();
        SpinLockGuard { irq_flag: None }
    }

    /// Takes the lock with interrupts off and preemption disabled.
    pub fn lock_irqsave(&mut self, pm: &mut ProcessManager) -> (guard: SpinLockGuard)
        requires
            !old(self).locked,
            old(pm)@.wf(),
        ensures
            guard.irq_flag == Some(IrqFlagsGuard { was_enabled: old(pm)@.irq_enabled }),
            *final(self) == (SpinLock { locked: true, ..*old(self) }),
            final(pm)@ == old(pm)@.irq_off().preempt_disabled(),
    {
        let irq_guard = pm.save_and_disable_irq();
        pm.preempt_disable();
        let _ = self.inner_try_lock();
        SpinLockGuard { irq_flag: Some(irq_guard) }
    }

    /// Takes the lock with deferred work disabled; interrupts stay on.
    pub fn lock_bh(&mut self, pm: &mut ProcessManager) -> (guard: SpinLockBhGuard)
        requires
            !old(self).locked,
            old(pm)@.wf(),
            old(pm)@.bh_disabled < usize::MAX,
        ensures
            guard.guard.irq_flag == None::<IrqFlagsGuard>,
            *final(self) == (SpinLock { locked: true, ..*old(self) }),
            final(pm)@ == (ProcessManagerView {
                bh_disabled: (old(pm)@.bh_disabled + 1) as usize,
                ..old(pm)@
            }).preempt_disabled(),
    {
        pm.bh_disabled = pm.bh_disabled + 1;
        let guard = self.lock(pm);
        SpinLockBhGuard { guard }
    }

    /// Takes the lock if it is free, with preemption disabled.
    pub fn try_lock(&mut self, pm: &mut ProcessManager) -> (guard: Result<
        SpinLockGuard,
        SystemError,
    >)
        requires
            old(pm)@.wf(),
        ensures
            match guard {
                Ok(g) => !old(self).locked && g.irq_flag == None::<IrqFlagsGuard> && *final(self)
                    == (SpinLock { locked: true, ..*old(self) }) && final(pm)@
                    == old(pm)@.preempt_disabled(),
                Err(e) => old(self).locked && e == SystemError::EAGAIN_OR_EWOULDBLOCK
                    && *final(self) == *old(self) && final(pm)@
                    == old(pm)@.preempt_disabled().preempt_enabled(),
            },
    {
        pm.preempt_disable();
        if self.inner_try_lock() {
            return Ok(SpinLockGuard { irq_flag: None });
        }
        pm.preempt_enable();
        Err(SystemError::EAGAIN_OR_EWOULDBLOCK)
    }

    /// Takes the lock word if it is free.
    fn inner_try_lock(&mut self) -> (taken: bool)
        ensures
            taken == !old(self).locked,
            *final(self) == (SpinLock { locked: true, ..*old(self) }),
    {
        let taken = !self.locked;
        self.locked = true;
        taken
    }

    /// Takes the lock if it is free, with interrupts off and preemption disabled.
    pub fn try_lock_irqsave(&mut self, pm: &mut ProcessManager) -> (guard: Result<
        SpinLockGuard,
        SystemError,
    >)
        requires
            old(pm)@.wf(),
        ensures
            match guard {
                Ok(g) => !old(self).locked && g.irq_flag == Some(
                    IrqFlagsGuard { was_enabled: old(pm)@.irq_enabled },
                ) && *final(self) == (SpinLock { locked: true, ..*old(self) }) && final(pm)@
                    == old(pm)@.irq_off().preempt_disabled(),
                Err(e) => old(self).locked && e == SystemError::EAGAIN_OR_EWOULDBLOCK
                    && *final(self) == *old(self) && final(pm)@
                    == old(pm)@.preempt_disabled().preempt_enabled(),
            },
    {
        let irq_guard = pm.save_and_disable_irq();
        pm.preempt_disable();
        if self.inner_try_lock() {
            return Ok(SpinLockGuard { irq_flag: Some(irq_guard) });
        }
        pm.preempt_enable();
        pm.restore_irq(Some(irq_guard));
        Err(SystemError::EAGAIN_OR_EWOULDBLOCK)
    }

    /// Takes the lock with interrupts off, for a guard that will be leaked: the
    /// preemption count stays as it is.
    pub fn lock_irqsave_no_preempt(&mut self, pm: &mut ProcessManager) -> (guard: SpinLockGuard)
        requires
            !old(self).locked,
        ensures
            guard.irq_flag == Some(IrqFlagsGuard { was_enabled: old(pm)@.irq_enabled }),
            *final(self) == (SpinLock { locked: true, ..*old(self) }),
            final(pm)@ == old(pm)@.irq_off(),
    {
        let irq_guard = pm.save_and_disable_irq();
        let _ = self.inner_try_lock();
        SpinLockGuard { irq_flag: Some(irq_guard) }
    }

    /// Frees the lock and nothing else, after its guard was leaked.
    pub fn force_unlock(&mut self)
        ensures
            *final(self) == (SpinLock { locked: false, ..*old(self) }),
    {
        self.locked = false;
    }

    /// Gives the lock back: frees it, then goes back to the interrupt state from
    /// before, then enables preemption.
    pub fn unlock(&mut self, guard: SpinLockGuard, pm: &mut ProcessManager)
        requires
            old(pm)@.wf(),
        ensures
            *final(self) == (SpinLock { locked: false, ..*old(self) }),
            final(pm)@ == old(pm)@.unlocked(guard),
    {
        self.locked = false;
        pm.restore_irq(guard.irq_flag);
        pm.preempt_enable();
    }

    /// Gives back a lock that was taken with deferred work disabled: the lock
    /// first, then deferred work.
    pub fn unlock_bh(&mut self, guard: SpinLockBhGuard, pm: &mut ProcessManager)
        requires
            old(pm)@.wf(),
            old(pm)@.bh_disabled > 0,
        ensures
            *final(self) == (SpinLock { locked: false, ..*old(self) }),
            final(pm)@ == (ProcessManagerView {
                bh_disabled: (old(pm)@.bh_disabled - 1) as usize,
                ..old(pm)@.unlocked(guard.guard)
            }),
    {
        self.unlock(guard.guard, pm);
        pm.bh_disabled = pm.bh_disabled - 1;
    }

    /// Whether somebody holds the lock.
    pub fn is_locked(&self) -> (b: bool)
        ensures
            b == self.locked,
    {
        self.locked
    }
}

/// Taking a lock in any of the ways and giving it back leaves the preemption
/// count and the interrupt state of the processor as they were.
pub proof fn law_lock_unlock_restores(pm: ProcessManagerView)
    requires
        pm.wf(),
        pm.count() < usize::MAX,
    ensures
        pm.preempt_disabled().unlocked(SpinLockGuard { irq_flag: None }) == pm,
        pm.irq_off().preempt_disabled().unlocked(
            SpinLockGuard { irq_flag: Some(IrqFlagsGuard { was_enabled: pm.irq_enabled }) },
        ) == pm,
{
    crate::process::preempt::law_preempt_disable_enable_restores(pm);
    let held = pm.irq_off().preempt_disabled();
    assert(held.irq_restored(Some(IrqFlagsGuard { was_enabled: pm.irq_enabled }))
        == pm.preempt_disabled());
}

/// Giving a lock back brings interrupts to what they were, where taking it changed that, and
/// enables preemption once.
pub proof fn law_unlocking_restores_interrupts(pm: ProcessManagerView, guard: SpinLockGuard)
    requires
        pm.wf(),
        pm.init_done,
    ensures
        !pm.irq_off().irq_enabled,
        pm.unlocked(guard).irq_enabled == match guard.irq_flag {
            Some(g) => g.was_enabled,
            None => pm.irq_enabled,
        },
        pm.unlocked(guard).preempt_count[pm.cpu.id as int] == if pm.preempt_count[pm.cpu.id as int]
            == 0 {
            0
        } else {
            pm.preempt_count[pm.cpu.id as int] - 1
        },
        pm.unlocked(guard).tasks == pm.tasks,
        pm.unlocked(guard).actions == pm.actions,
{
}

} // verus!
