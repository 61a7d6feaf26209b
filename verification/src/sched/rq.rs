//! The run queue of a processor.
use crate::libs::spinlock::{IrqFlagsGuard, SpinLock, SpinLockGuard};
use crate::process::action::Action;
use crate::process::manager::{ProcessManager, ProcessManagerView};
use crate::process::pcb::TaskId;
use crate::sched::entity::SchedInfo;
use crate::sched::flags::ClockUpdataFlag;
use crate::sched::loadavg;
use crate::smp::cpu::ProcessorId;
use vstd::prelude::*;

verus! {

/// The number of timer ticks in a second.
pub const HZ: u64 = 250;

/// What the core of the scheduler sees of the run queue of the fair class.
#[derive(Debug, Clone, Copy, PartialEq, Eq, Structural)]
pub struct CfsRunQueue {
    /// The task that the class has running.
    pub current: Option<TaskId>,
    /// The number of its tasks.
    pub h_nr_running: u64,
    /// The number of its tasks that run only when nothing else does.
    pub idle_h_nr_running: u64,
    pub load_avg: usize,
    pub util_avg: usize,
    pub runnable_avg: usize,
}

/// What the core of the scheduler sees of the run queue of the first-in-first-out
/// class.
#[derive(Debug, Clone, Copy, PartialEq, Eq, Structural)]
pub struct FifoRunQueue {
    /// The number of its tasks.
    pub nr_running: usize,
}

/// What the clocks of a processor show.
#[derive(Debug, Clone, Copy, PartialEq, Eq, Structural)]
pub struct ClockSample {
    /// The scheduler clock.
    pub clock: u64,
    /// The time spent in interrupts so far.
    pub irq_time: u64,
}

impl ClockSample {
    pub open spec fn spec_unread() -> ClockSample {
        ClockSample { clock: 0, irq_time: 0 }
    }

    /// No reading, for steps that find the clock up to date.
    #[verifier::when_used_as_spec(spec_unread)]
    pub fn unread() -> (sample: ClockSample)
        ensures
            sample == ClockSample::unread(),
    {
        ClockSample { clock: 0, irq_time: 0 }
    }
}

/// The run queue of a processor.
#[derive(Debug, Clone, Copy)]
pub struct CpuRunQueue {
    pub lock: SpinLock<()>,
    pub cpu: ProcessorId,
    /// The time that tasks had.
    pub clock_task: u64,
    /// The time that passed.
    pub clock: u64,
    /// The time that interrupts had, as far as it was taken into account.
    pub prev_irq_time: u64,
    pub clock_updata_flags: ClockUpdataFlag,
    /// There are two tasks or more.
    pub overload: bool,
    /// When to balance next, in ticks.
    pub next_balance: u64,
    /// The number of tasks.
    pub nr_running: usize,
    /// The tasks that went into an uninterruptible sleep here, less those that
    /// were woken from one here. It is the sum over all processors that counts.
    pub nr_uninterruptible: isize,
    /// The number of tasks that sleep for input or output.
    pub nr_iowait: usize,
    /// When to take the load next, in ticks.
    pub calc_load_update: u64,
    pub calc_load_active: isize,
    pub cfs: CfsRunQueue,
    pub fifo: FifoRunQueue,
    /// Task time that the load averages have not taken in yet.
    pub pelt_pending: u64,
    pub sched_info: SchedInfo,
    /// The task that runs.
    pub current: Option<TaskId>,
    /// The same, for readers that do not hold the lock.
    pub current_ptr: Option<TaskId>,
    /// The task that runs when there is nothing else to do.
    pub idle: Option<TaskId>,
    /// Tasks wait in the wake queue.
    pub ttwu_pending: bool,
    /// The place of the lowest scheduling domain.
    pub sched_domain: Option<usize>,
}

impl CpuRunQueue {
    /// All time belongs either to tasks or to interrupts, and the averages are
    /// not ahead of the tasks.
    pub open spec fn clock_wf(self) -> bool {
        &&& self.clock_task + self.prev_irq_time == self.clock
        &&& self.pelt_pending <= self.clock_task
    }

    /// The queue is overloaded exactly when it has two tasks or more.
    pub open spec fn overload_wf(self) -> bool {
        self.overload <==> self.nr_running >= 2
    }

    /// What a scheduling class leaves alone of the queue: everything but the clocks,
    /// which only go forward, the number of tasks, and the queues of the classes.
    pub open spec fn spared_by_class(self, after: CpuRunQueue) -> bool {
        &&& after.sched_info == self.sched_info
        &&& self.kept_by_queueing(after)
    }

    /// What is left alone of the queue when a task is put on it or taken off it: in
    /// addition to what a class may change, how long its tasks have waited.
    pub open spec fn kept_by_queueing(self, after: CpuRunQueue) -> bool {
        &&& after.clock >= self.clock
        &&& after.clock_task >= self.clock_task
        &&& after.prev_irq_time >= self.prev_irq_time
        &&& after == (CpuRunQueue {
            clock: after.clock,
            clock_task: after.clock_task,
            prev_irq_time: after.prev_irq_time,
            clock_updata_flags: after.clock_updata_flags,
            pelt_pending: after.pelt_pending,
            overload: after.overload,
            nr_running: after.nr_running,
            cfs: after.cfs,
            fifo: after.fifo,
            sched_info: after.sched_info,
            ..self
        })
    }

    pub fn cpu(&self) -> (cpu: ProcessorId)
        ensures
            cpu == self.cpu,
    {
        self.cpu
    }

    /// Frees the lock of the queue after a context switch.
    pub fn force_unlock(&mut self)
        ensures
            *final(self) == (CpuRunQueue {
                lock: SpinLock { locked: false, data: () },
                ..*old(self)
            }),
    {
        self.lock.force_unlock();
    }

    /// Whether this is the queue of a processor that has no task yet.
    pub open spec fn is_fresh(self, cpu: ProcessorId, now: u64) -> bool {
        self == (CpuRunQueue {
            lock: SpinLock { locked: false, data: () },
            cpu,
            clock_task: 0,
            clock: 0,
            prev_irq_time: 0,
            clock_updata_flags: ClockUpdataFlag { bits: 0 },
            overload: false,
            next_balance: (now + 1) as u64,
            nr_running: 0,
            nr_uninterruptible: 0,
            nr_iowait: 0,
            calc_load_update: (now + 5 * HZ + 1) as u64,
            calc_load_active: 0,
            cfs: CfsRunQueue {
                current: None,
                h_nr_running: 0,
                idle_h_nr_running: 0,
                load_avg: 0,
                util_avg: 0,
                runnable_avg: 0,
            },
            fifo: FifoRunQueue { nr_running: 0 },
            pelt_pending: 0,
            sched_info: SchedInfo { last_queued: 0, run_delay: 0 },
            current: None,
            current_ptr: None,
            idle: None,
            ttwu_pending: false,
            sched_domain: None,
        })
    }

    /// The queue of a processor that has no task yet; `now` is the time in ticks.
    pub fn new(cpu: ProcessorId, now: u64) -> (rq: CpuRunQueue)
        requires
            now + 5 * HZ + 1 <= u64::MAX,
        ensures
            rq.is_fresh(cpu, now),
            rq.overload_wf(),
    {
        CpuRunQueue {
            lock: SpinLock::new(()),
            cpu,
            clock_task: 0,
            clock: 0,
            prev_irq_time: 0,
            clock_updata_flags: ClockUpdataFlag { bits: 0 },
            overload: false,
            next_balance: now.saturating_add(1),
            nr_running: 0,
            nr_uninterruptible: 0,
            nr_iowait: 0,
            calc_load_update: now + (5 * HZ + 1),
            calc_load_active: 0,
            cfs: CfsRunQueue {
                current: None,
                h_nr_running: 0,
                idle_h_nr_running: 0,
                load_avg: 0,
                util_avg: 0,
                runnable_avg: 0,
            },
            fifo: FifoRunQueue { nr_running: 0 },
            pelt_pending: 0,
            sched_info: SchedInfo { last_queued: 0, run_delay: 0 },
            current: None,
            current_ptr: None,
            idle: None,
            ttwu_pending: false,
            sched_domain: None,
        }
    }

    /// The queue with its lock taken or free.
    pub open spec fn with_lock(self, locked: bool) -> CpuRunQueue {
        CpuRunQueue { lock: SpinLock { locked, ..self.lock }, ..self }
    }

    /// Takes the lock with interrupts off.
    pub fn self_lock(&mut self, pm: &mut ProcessManager) -> (guard: SpinLockGuard)
        requires
            !old(self).lock.locked,
            old(pm)@.wf(),
        ensures
            guard.irq_flag == Some(IrqFlagsGuard { was_enabled: old(pm)@.irq_enabled }),
            *final(self) == old(self).with_lock(true),
            final(pm)@ == old(pm)@.irq_off().preempt_disabled(),
    {
        self.lock.lock_irqsave(pm)
    }

    /// Takes the lock where interrupts are off already.
    pub fn self_lock_no_irq(&mut self, pm: &mut ProcessManager) -> (guard: SpinLockGuard)
        requires
            !old(self).lock.locked,
            old(pm)@.wf(),
        ensures
            guard.irq_flag == None::<IrqFlagsGuard>,
            *final(self) == old(self).with_lock(true),
            final(pm)@ == old(pm)@.preempt_disabled(),
    {
        self.lock.lock(pm)
    }

    /// Takes the lock if it is free.
    pub fn try_self_lock(&mut self, pm: &mut ProcessManager) -> (guard: Option<SpinLockGuard>)
        requires
            old(pm)@.wf(),
        ensures
            match guard {
                Some(g) => !old(self).lock.locked && g.irq_flag == Some(
                    IrqFlagsGuard { was_enabled: old(pm)@.irq_enabled },
                ) && *final(self) == old(self).with_lock(true) && final(pm)@
                    == old(pm)@.irq_off().preempt_disabled(),
                None => old(self).lock.locked && *final(self) == *old(self) && final(pm)@
                    == old(pm)@.preempt_disabled().preempt_enabled(),
            },
    {
        match self.lock.try_lock_irqsave(pm) {
            Ok(guard) => Some(guard),
            Err(_) => None,
        }
    }

    /// Gives the lock back.
    pub fn self_unlock(&mut self, guard: SpinLockGuard, pm: &mut ProcessManager)
        requires
            old(pm)@.wf(),
        ensures
            *final(self) == old(self).with_lock(false),
            final(pm)@ == old(pm)@.unlocked(guard),
    {
        self.lock.unlock(guard, pm);
    }

    /// The queue for changing, while its lock is held.
    pub fn force_mut_locked(&mut self) -> (rq: &mut CpuRunQueue)
        requires
            old(self).lock.locked,
        ensures
            *rq == *old(self),
            *final(self) == *final(rq),
    {
        self
    }

    /// The number of tasks, as seen without the lock.
    pub fn nr_running_lockless(&self) -> (n: usize)
        ensures
            n == self.nr_running,
    {
        self.nr_running
    }

    pub fn cfs_rq(&self) -> (cfs: CfsRunQueue)
        ensures
            cfs == self.cfs,
    {
        self.cfs
    }

    pub fn sched_domain(&self) -> (sd: Option<usize>)
        ensures
            sd == self.sched_domain,
    {
        self.sched_domain
    }

    pub fn set_sched_domain(&mut self, sd: Option<usize>)
        ensures
            *final(self) == (CpuRunQueue { sched_domain: sd, ..*old(self) }),
    {
        self.sched_domain = sd;
    }

    pub fn cfs_load_avg_lockless(&self) -> (avg: usize)
        ensures
            avg == self.cfs.load_avg,
    {
        self.cfs.load_avg
    }

    /// The average utilisation by the fair class.
    pub fn cfs_util_avg_lockless(&self) -> (avg: usize)
        ensures
            avg == self.cfs.util_avg,
    {
        self.cfs.util_avg
    }

    /// The average time for which tasks of the fair class could run.
    pub fn cfs_runnable_avg_lockless(&self) -> (avg: usize)
        ensures
            avg == self.cfs.runnable_avg,
    {
        self.cfs.runnable_avg
    }

    /// The number of tasks of the fair class.
    pub fn cfs_h_nr_running_lockless(&self) -> (n: u64)
        ensures
            n == self.cfs.h_nr_running,
    {
        self.cfs.h_nr_running
    }

    /// The number of tasks that sleep for input or output.
    pub fn nr_iowait(&self) -> (n: usize)
        ensures
            n == self.nr_iowait,
    {
        self.nr_iowait
    }

    /// The queue after `delta` units of time: interrupts get what they had since they
    /// were last looked at, but never more than there is, and tasks get the rest.
    pub open spec fn task_time_passed(self, delta: u64, irq_time: u64) -> CpuRunQueue {
        let irq_delta = if irq_time.wrapping_sub(self.prev_irq_time) > delta {
            delta
        } else {
            irq_time.wrapping_sub(self.prev_irq_time)
        };
        CpuRunQueue {
            prev_irq_time: (self.prev_irq_time + irq_delta) as u64,
            clock_task: (self.clock_task + (delta - irq_delta)) as u64,
            pelt_pending: (self.pelt_pending + (delta - irq_delta)) as u64,
            ..self
        }
    }

    /// The queue after its clocks were brought up to date: time goes forward only,
    /// and not while updates are being skipped.
    pub open spec fn clocked(self, sample: ClockSample) -> CpuRunQueue {
        if self.clock_updata_flags.contains(ClockUpdataFlag::RQCF_ACT_SKIP) || sample.clock
            < self.clock {
            self
        } else {
            let delta = (sample.clock - self.clock) as u64;
            CpuRunQueue { clock: sample.clock, ..self }.task_time_passed(delta, sample.irq_time)
        }
    }

    /// Brings the clocks of the queue up to date, on its own processor `this_cpu`.
    pub fn update_rq_clock(&mut self, this_cpu: ProcessorId, sample: ClockSample)
        requires
            old(self).clock_wf(),
            old(self).cpu == this_cpu,
        ensures
            *final(self) == old(self).clocked(sample),
            final(self).clock_wf(),
    {
        self.update_rq_clock_from_clock(sample);
    }

    /// Brings the clocks of the queue up to date.
    pub fn update_rq_clock_from_clock(&mut self, sample: ClockSample)
        requires
            old(self).clock_wf(),
        ensures
            *final(self) == old(self).clocked(sample),
            final(self).clock_wf(),
    {
        if self.clock_updata_flags.contains(ClockUpdataFlag::RQCF_ACT_SKIP) {
            return;
        }
        if sample.clock < self.clock {
            return;
        }
        let delta: u64 = sample.clock - self.clock;
        self.clock = self.clock + delta;
        self.update_rq_clock_task(delta, sample.irq_time);
    }

    /// Divides `delta` units of time between interrupts and tasks.
    pub fn update_rq_clock_task(&mut self, delta: u64, irq_time: u64)
        requires
            old(self).clock_task + delta <= u64::MAX,
            old(self).prev_irq_time + delta <= u64::MAX,
            old(self).pelt_pending <= old(self).clock_task,
        ensures
            *final(self) == old(self).task_time_passed(delta, irq_time),
    {
        let mut irq_delta: u64 = irq_time.wrapping_sub(self.prev_irq_time);
        if irq_delta > delta {
            irq_delta = delta;
        }
        self.prev_irq_time = self.prev_irq_time + irq_delta;
        let delta: u64 = delta - irq_delta;
        self.clock_task = self.clock_task + delta;
        self.update_rq_clock_pelt(delta);
    }

    /// Leaves `delta` units of task time for the load averages to take in.
    fn update_rq_clock_pelt(&mut self, delta: u64)
        requires
            old(self).pelt_pending + delta <= u64::MAX,
        ensures
            *final(self) == (CpuRunQueue {
                pelt_pending: (old(self).pelt_pending + delta) as u64,
                ..*old(self)
            }),
    {
        self.pelt_pending = self.pelt_pending + delta;
    }

    /// What the tick folds into the global load.
    pub open spec fn load_tick(self) -> Action {
        Action::GlobalLoadTick {
            cpu: self.cpu,
            nr_running: self.nr_running,
            nr_uninterruptible: self.nr_uninterruptible,
        }
    }

    /// Has the tasks of the queue folded into the global load.
    pub fn calculate_global_load_tick(&mut self, pm: &mut ProcessManager)
        ensures
            *final(self) == *old(self),
            final(pm)@ == old(pm)@.with_action(old(self).load_tick()),
    {
        pm.act(
            Action::GlobalLoadTick {
                cpu: self.cpu,
                nr_running: self.nr_running,
                nr_uninterruptible: self.nr_uninterruptible,
            },
        );
    }

    /// The queue with `n` more tasks: one that gets its second task is overloaded.
    pub open spec fn with_more_tasks(self, n: usize) -> CpuRunQueue {
        CpuRunQueue {
            nr_running: (self.nr_running + n) as usize,
            overload: self.overload || (self.nr_running < 2 && self.nr_running + n >= 2),
            ..self
        }
    }

    /// How many of `n` tasks can leave the queue.
    pub open spec fn leaving(self, n: usize) -> usize {
        if self.nr_running < n {
            self.nr_running
        } else {
            n
        }
    }

    /// The queue with `n` tasks less, or none: one with less than two tasks is not overloaded.
    pub open spec fn with_fewer_tasks(self, n: usize) -> CpuRunQueue {
        let left = (self.nr_running - self.leaving(n)) as usize;
        CpuRunQueue { nr_running: left, overload: self.overload && left >= 2, ..self }
    }

    /// Counts more tasks, here and in the global count. A queue that gets its
    /// second task is overloaded.
    pub fn add_nr_running(&mut self, pm: &mut ProcessManager, nr_running: usize)
        requires
            old(self).nr_running + nr_running <= usize::MAX,
            old(pm)@.nr_running + nr_running <= usize::MAX,
        ensures
            *final(self) == old(self).with_more_tasks(nr_running),
            final(pm)@ == (ProcessManagerView {
                nr_running: (old(pm)@.nr_running + nr_running) as usize,
                ..old(pm)@
            }),
            old(self).overload_wf() ==> final(self).overload_wf(),
    {
        let prev: usize = self.nr_running;
        self.nr_running = prev + nr_running;
        loadavg::inc_nr_running(pm, nr_running);
        if prev < 2 && prev + nr_running >= 2 && !self.overload {
            self.overload = true;
        }
    }

    /// Counts fewer tasks, here and in the global count, but never fewer than
    /// none. A queue with less than two tasks is not overloaded.
    pub fn sub_nr_running(&mut self, pm: &mut ProcessManager, count: usize)
        requires
            old(pm)@.nr_running >= count || old(pm)@.nr_running >= old(self).nr_running,
        ensures
            *final(self) == old(self).with_fewer_tasks(count),
            final(pm)@ == (ProcessManagerView {
                nr_running: (old(pm)@.nr_running - old(self).leaving(count)) as usize,
                ..old(pm)@
            }),
            old(self).overload_wf() ==> final(self).overload_wf(),
    {
        let prev: usize = self.nr_running;
        let actual_dec: usize = if prev < count {
            self.nr_running = 0;
            prev
        } else {
            self.nr_running = prev - count;
            count
        };
        let new_val: usize = self.nr_running;
        loadavg::dec_nr_running(pm, actual_dec);
        if new_val < 2 && self.overload {
            self.overload = false;
        }
    }

    /// Counts one task less in uninterruptible sleep; the count of a single
    /// processor may become negative.
    pub fn dec_nr_uninterruptible(&mut self)
        ensures
            *final(self) == (CpuRunQueue {
                nr_uninterruptible: old(self).nr_uninterruptible.wrapping_sub(1),
                ..*old(self)
            }),
    {
        self.nr_uninterruptible = self.nr_uninterruptible.wrapping_sub(1);
    }

    /// The queue with one task less that sleeps for input or output, if there is
    /// any.
    pub open spec fn iowait_decremented(self) -> CpuRunQueue {
        CpuRunQueue {
            nr_iowait: if self.nr_iowait == 0 {
                0
            } else {
                (self.nr_iowait - 1) as usize
            },
            ..self
        }
    }

    /// Counts one task less that sleeps for input or output, if there is any.
    pub fn dec_nr_iowait(&mut self)
        ensures
            *final(self) == old(self).iowait_decremented(),
    {
        let prev: usize = self.nr_iowait;
        if prev == 0 {
            return;
        }
        self.nr_iowait = prev - 1;
    }

    /// Whether the queue has tasks, and all of them run only when nothing else
    /// does.
    pub fn sched_idle_rq(&self) -> (b: bool)
        ensures
            b == (self.nr_running > 0 && self.nr_running as u64 == self.cfs.idle_h_nr_running),
    {
        let nr_running: usize = self.nr_running;
        nr_running as u64 == self.cfs.idle_h_nr_running && nr_running > 0
    }

    /// The task that runs.
    pub fn current(&self) -> (t: TaskId)
        requires
            self.current is Some,
        ensures
            Some(t) == self.current,
    {
        self.current.unwrap()
    }

    /// The queue with another task running.
    pub open spec fn with_current(self, t: TaskId) -> CpuRunQueue {
        CpuRunQueue { current: Some(t), current_ptr: Some(t), ..self }
    }

    /// Notes which task runs, also for readers without the lock.
    pub fn set_current(&mut self, t: TaskId)
        ensures
            *final(self) == old(self).with_current(t),
    {
        self.current_ptr = Some(t);
        self.current = Some(t);
    }

    /// The task that runs, as seen without the lock.
    pub fn current_ptr_lockless(&self) -> (t: Option<TaskId>)
        ensures
            t == self.current_ptr,
    {
        self.current_ptr
    }

    /// The task that runs when there is nothing else to do.
    pub fn idle(&self) -> (t: Option<TaskId>)
        ensures
            t == self.idle,
    {
        self.idle
    }

    pub fn set_idle(&mut self, t: Option<TaskId>)
        ensures
            *final(self) == (CpuRunQueue { idle: t, ..*old(self) }),
    {
        self.idle = t;
    }

    /// The time that tasks had.
    pub fn clock_task(&self) -> (t: u64)
        ensures
            t == self.clock_task,
    {
        self.clock_task
    }
}

/// The clocks of a queue never go back, and all time still belongs either to
/// tasks or to interrupts, which get no more than they had.
pub proof fn law_clock_goes_forward(rq: CpuRunQueue, sample: ClockSample)
    requires
        rq.clock_wf(),
    ensures
        rq.clocked(sample).clock_wf(),
        rq.clocked(sample).clock >= rq.clock,
        rq.clocked(sample).clock_task >= rq.clock_task,
        rq.clocked(sample).prev_irq_time >= rq.prev_irq_time,
        rq.prev_irq_time <= sample.irq_time ==> rq.clocked(sample).prev_irq_time
            <= sample.irq_time,
{
}

impl CpuRunQueue {
    /// Bringing the clocks up to date leaves alone what a scheduling class does.
    pub proof fn lemma_spared_clocked(self, sample: ClockSample)
        requires
            self.clock_wf(),
        ensures
            self.spared_by_class(self.clocked(sample)),
            self.clocked(sample).clock_wf(),
    {
        law_clock_goes_forward(self, sample);
    }
}

/// Reading the clocks twice at the same moment is the same as reading them once.
pub proof fn law_clock_update_is_idempotent(rq: CpuRunQueue, sample: ClockSample)
    requires
        rq.clock_wf(),
    ensures
        rq.clocked(sample).clocked(sample) == rq.clocked(sample),
{
}

/// Tasks that come to a queue and leave it again leave it as it was, and at every moment it is
/// overloaded exactly when it has two tasks or more.
pub proof fn law_tasks_come_and_go(rq: CpuRunQueue, n: usize)
    requires
        rq.overload_wf(),
        rq.nr_running + n <= usize::MAX,
    ensures
        rq.with_more_tasks(n).overload_wf(),
        rq.with_fewer_tasks(n).overload_wf(),
        rq.with_more_tasks(n).with_fewer_tasks(n) == rq,
        rq.with_more_tasks(n).leaving(n) == n,
{
}

} // verus!
