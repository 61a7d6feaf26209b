//! Setting on which processors a task may run.
use crate::error::SystemError;
use crate::libs::spinlock::{IrqFlagsGuard, SpinLockGuard};
use crate::process::action::Action;
use crate::process::manager::{ProcessManager, ProcessManagerView};
use crate::process::pcb::{ProcessControlBlock, TaskId};
use crate::process::signal::RawPid;
use crate::sched::entity::ProcessSchedulerInfo;
use crate::sched::flags::{DequeueFlag, EnqueueFlag, SchedMode, WakeupFlags};
use crate::sched::percpu::{SchedCore, SchedCoreView, cpu_rq, send_resched_ipi, task_cpu};
use crate::sched::policy::{OnRq, SchedPolicy};
use crate::sched::rq::{ClockSample, CpuRunQueue};
use crate::sched::schedule::{schedule, PassState};
use crate::sched::scheduler::{RqState, SchedClasses, Scheduler};
use crate::sched::wake::ttwu_queue;
use crate::smp::cpu::{CpuMask, ProcessorId, CPU_MASK_BYTES, MAX_CPU_NUM};
use vstd::prelude::*;

verus! {

/// The system call that sets on which processors a task may run.
pub struct SysSchedSetaffinity;

/// Whether the bit map of a user has a bit for the processor in slot `i`.
pub open spec fn user_bit(user_set: Seq<u8>, i: int) -> bool {
    0 <= i < 8 * user_set.len() && has_bit(user_set[i / 8], i % 8)
}

/// Whether bit `bit` of a byte is set.
pub open spec fn has_bit(byte: u8, bit: int) -> bool {
    byte & (1u8 << (bit as u8)) != 0
}

/// Whether the bit map of a user names slots that there are only.
pub open spec fn user_mask_fits(user_set: Seq<u8>) -> bool {
    forall|k: int| CPU_MASK_BYTES <= k < user_set.len() ==> #[trigger] user_set[k] == 0
}

/// Whether a set holds what the bit map of a user names.
pub open spec fn is_user_mask(user_set: Seq<u8>, mask: CpuMask) -> bool {
    forall|i: int| 0 <= i < MAX_CPU_NUM ==> #[trigger] mask.has(i) == user_bit(user_set, i)
}

/// No bit is set in a byte that is 0.
proof fn lemma_zero_byte(bit: int)
    requires
        0 <= bit < 8,
    ensures
        !has_bit(0, bit),
{
    let b = bit as u8;
    assert(0u8 & (1u8 << b) == 0) by (bit_vector);
}

impl SysSchedSetaffinity {
    /// The number of arguments of the system call.
    pub fn num_args(&self) -> (n: usize)
        ensures
            n == 3,
    {
        3
    }

    /// Puts the processors of one byte of a bit map into a set.
    fn parse_byte(mask: &mut CpuMask, byte_index: usize, byte: u8)
        requires
            byte_index < CPU_MASK_BYTES,
            forall|i: int|
                8 * byte_index <= i < 8 * byte_index + 8 ==> !#[trigger] old(mask).has(i),
        ensures
            forall|i: int| #[trigger]
                final(mask).has(i) == if 8 * byte_index <= i < 8 * byte_index + 8 {
                    has_bit(byte, i - 8 * byte_index)
                } else {
                    old(mask).has(i)
                },
    {
        let mut bit: u8 = 0;
        while bit < 8
            invariant
                bit <= 8,
                byte_index < CPU_MASK_BYTES,
                forall|i: int| #[trigger]
                    mask.has(i) == if 8 * byte_index <= i < 8 * byte_index + bit {
                        has_bit(byte, i - 8 * byte_index)
                    } else if 8 * byte_index <= i < 8 * byte_index + 8 {
                        false
                    } else {
                        old(mask).has(i)
                    },
            decreases 8 - bit,
        {
            let ghost before = *mask;
            if byte & (1u8 << bit) != 0 {
                let cpu_index: u32 = byte_index as u32 * 8 + bit as u32;
                let _ = mask.set(ProcessorId::new(cpu_index), true);
            }
            assert forall|i: int| #[trigger]
                mask.has(i) == if 8 * byte_index <= i < 8 * byte_index + bit + 1 {
                    has_bit(byte, i - 8 * byte_index)
                } else if 8 * byte_index <= i < 8 * byte_index + 8 {
                    false
                } else {
                    old(mask).has(i)
                } by {
                assert(before.has(i) == if 8 * byte_index <= i < 8 * byte_index + bit {
                    has_bit(byte, i - 8 * byte_index)
                } else if 8 * byte_index <= i < 8 * byte_index + 8 {
                    false
                } else {
                    old(mask).has(i)
                });
                if i == 8 * byte_index + bit {
                    assert(has_bit(byte, bit as int) == (byte & (1u8 << bit) != 0));
                }
            }
            bit = bit + 1;
        }
    }

    /// Reads the bit map of a user. Bits beyond the slots that there are must not be
    /// set.
    pub fn parse_user_mask(user_set: &Vec<u8>) -> (res: Result<CpuMask, SystemError>)
        ensures
            match res {
                Ok(mask) => user_mask_fits(user_set@) && is_user_mask(user_set@, mask),
                Err(e) => e == SystemError::EINVAL && !user_mask_fits(user_set@),
            },
    {
        let mut mask = CpuMask::new();
        let parse_len: usize = if user_set.len() < CPU_MASK_BYTES {
            user_set.len()
        } else {
            CPU_MASK_BYTES
        };
        let mut byte_index: usize = 0;
        while byte_index < parse_len
            invariant
                byte_index <= parse_len <= CPU_MASK_BYTES,
                parse_len <= user_set@.len(),
                forall|i: int| #[trigger]
                    mask.has(i) == (i < 8 * byte_index && user_bit(user_set@, i)),
            decreases parse_len - byte_index,
        {
            let byte: u8 = user_set[byte_index];
            let ghost before = mask;
            if byte != 0 {
                Self::parse_byte(&mut mask, byte_index, byte);
            }
            assert forall|i: int| #[trigger]
                mask.has(i) == (i < 8 * (byte_index + 1) && user_bit(user_set@, i)) by {
                assert(before.has(i) == (i < 8 * byte_index && user_bit(user_set@, i)));
                if 8 * byte_index <= i < 8 * byte_index + 8 {
                    assert(i / 8 == byte_index && i % 8 == i - 8 * byte_index);
                    if byte == 0 {
                        lemma_zero_byte(i % 8);
                    }
                }
            }
            byte_index = byte_index + 1;
        }
        let mut k: usize = parse_len;
        while k < user_set.len()
            invariant
                parse_len <= k <= user_set@.len(),
                parse_len == if user_set@.len() < CPU_MASK_BYTES {
                    user_set@.len()
                } else {
                    CPU_MASK_BYTES as nat
                },
                forall|j: int| CPU_MASK_BYTES <= j < k ==> #[trigger] user_set@[j] == 0,
            decreases user_set@.len() - k,
        {
            if user_set[k] != 0 {
                assert(user_set@[k as int] != 0);
                return Err(SystemError::EINVAL);
            }
            k = k + 1;
        }
        Ok(mask)
    }
}

impl ProcessControlBlock {
    pub open spec fn spec_with_cpus_allowed(&self, cpus_allowed: CpuMask) -> ProcessControlBlock {
        ProcessControlBlock {
            sched_info: ProcessSchedulerInfo { cpus_allowed, ..self.sched_info },
            ..*self
        }
    }

    /// The task with other processors that it may run on.
    #[verifier::when_used_as_spec(spec_with_cpus_allowed)]
    pub fn with_cpus_allowed(&self, cpus_allowed: CpuMask) -> (pcb: ProcessControlBlock)
        ensures
            pcb == self.with_cpus_allowed(cpus_allowed),
    {
        ProcessControlBlock {
            sched_info: ProcessSchedulerInfo { cpus_allowed, ..self.sched_info },
            ..*self
        }
    }
}

/// How far setting the processors of a task has come.
#[derive(Debug)]
pub enum AffinityStep {
    /// It is over.
    Done(Result<usize, SystemError>),
    /// The task is between two run queues: when it has arrived, `retry` goes on.
    Retry { target: TaskId, mask: CpuMask, irq_guard: IrqFlagsGuard },
    /// The running task has to leave its processor: `move_current` goes on once
    /// another one has been selected for it.
    SelectForCurrent { target: TaskId, mask: CpuMask, irq_guard: IrqFlagsGuard },
    /// Another task has to leave the processor `cpu`, whose queue is locked:
    /// `move_other` goes on once another one has been selected for it.
    SelectForOther {
        target: TaskId,
        mask: CpuMask,
        cpu: ProcessorId,
        irq_guard: IrqFlagsGuard,
        rq_guard: SpinLockGuard,
    },
    /// The processor went to another task: `finish` goes on when this one is back.
    Switched { irq_guard: IrqFlagsGuard },
}

/// The task that the system call is about.
pub open spec fn affinity_target(pm: ProcessManagerView, pid: i32) -> Option<TaskId> {
    if pid == 0 {
        Some(pm.current)
    } else {
        pm.find_vpid(RawPid { data: pid as usize })
    }
}

/// Whether every processor that the bit map of a user names could be there.
pub open spec fn user_mask_possible(user_set: Seq<u8>, possible: CpuMask) -> bool {
    forall|i: int| 0 <= i < MAX_CPU_NUM && user_bit(user_set, i) ==> #[trigger] possible.has(i)
}

/// Whether the bit map of a user names no processor at all.
pub open spec fn user_mask_empty(user_set: Seq<u8>) -> bool {
    forall|i: int| 0 <= i < MAX_CPU_NUM ==> !#[trigger] user_bit(user_set, i)
}

/// Why the system call is refused, if it is.
pub open spec fn affinity_refusal(
    pm: ProcessManagerView,
    possible: CpuMask,
    pid: i32,
    size: usize,
    permitted: bool,
    user_set: Result<Vec<u8>, SystemError>,
) -> Option<SystemError> {
    if size == 0 {
        Some(SystemError::EINVAL)
    } else if affinity_target(pm, pid) is None {
        Some(SystemError::ESRCH)
    } else if !permitted {
        Some(SystemError::EPERM)
    } else {
        match user_set {
            Err(e) => Some(e),
            Ok(bytes) => if !user_mask_fits(bytes@) || user_mask_empty(bytes@)
                || !user_mask_possible(bytes@, possible) {
                Some(SystemError::EINVAL)
            } else {
                None
            },
        }
    }
}

/// The processor that a task goes to: the one that was selected if the task may run
/// there, else the lowest one on which it may.
pub open spec fn affinity_dest(
    mask: CpuMask,
    selected: ProcessorId,
    cpu: ProcessorId,
) -> ProcessorId {
    if selected.is_invalid() || !mask.has(selected.id as int) {
        match mask.lowest() {
            Some(first) => first,
            None => cpu,
        }
    } else {
        selected
    }
}

/// The tasks once `target` may run on `mask`.
pub open spec fn allowed(
    pm: ProcessManagerView,
    target: TaskId,
    mask: CpuMask,
) -> ProcessManagerView {
    pm.with_task(target, pm.task(target).with_cpus_allowed(mask))
}

/// The guard of a queue that was locked with interrupts off already.
pub open spec fn quiet_guard() -> SpinLockGuard {
    SpinLockGuard { irq_flag: Some(IrqFlagsGuard { was_enabled: false }) }
}

/// The interrupt state goes back to what it was.
pub open spec fn irq_back(pm: ProcessManagerView, guard: IrqFlagsGuard) -> ProcessManagerView {
    pm.irq_restored(Some(guard))
}

/// What happens to another task than the running one, with interrupts off: its queue
/// is locked and, unless the task has to leave it, unlocked again.
pub open spec fn affine_other_rel(
    sched: SchedCoreView,
    pm: ProcessManagerView,
    target: TaskId,
    mask: CpuMask,
    irq_guard: IrqFlagsGuard,
    sample: ClockSample,
    step: AffinityStep,
    sched_after: SchedCoreView,
    pm_after: ProcessManagerView,
) -> bool {
    let cpu = pm.task(target).sched_info.cpu;
    let rq = sched.rq(cpu).with_lock(true).clocked(sample);
    let locked = pm.irq_off().preempt_disabled();
    if pm.task(target).sched_info.on_rq == OnRq::Migrating {
        &&& step == AffinityStep::Retry { target, mask, irq_guard }
        &&& sched_after == sched.with_rq(cpu, rq.with_lock(false))
        &&& pm_after == locked.unlocked(quiet_guard())
    } else if mask.has(cpu.id as int) {
        &&& step == AffinityStep::Done(Ok(0))
        &&& sched_after == sched.with_rq(cpu, rq.with_lock(false))
        &&& pm_after == irq_back(
            allowed(locked, target, mask).unlocked(quiet_guard()),
            irq_guard,
        )
    } else {
        &&& step == AffinityStep::SelectForOther {
            target,
            mask,
            cpu,
            irq_guard,
            rq_guard: quiet_guard(),
        }
        &&& sched_after == sched.with_rq(cpu, rq)
        &&& pm_after == allowed(locked, target, mask)
    }
}

/// What happens to a task that may run on `mask` from now on.
pub open spec fn affine_rel(
    sched: SchedCoreView,
    pm: ProcessManagerView,
    target: TaskId,
    mask: CpuMask,
    sample: ClockSample,
    step: AffinityStep,
    sched_after: SchedCoreView,
    pm_after: ProcessManagerView,
) -> bool {
    let irq_guard = IrqFlagsGuard { was_enabled: pm.irq_enabled };
    if target != pm.current {
        affine_other_rel(
            sched,
            pm.irq_off(),
            target,
            mask,
            irq_guard,
            sample,
            step,
            sched_after,
            pm_after,
        )
    } else if mask.has(pm.cpu.id as int) {
        &&& step == AffinityStep::Done(Ok(0))
        &&& sched_after == sched
        &&& pm_after == allowed(pm, target, mask)
    } else {
        &&& step == AffinityStep::SelectForCurrent { target, mask, irq_guard }
        &&& sched_after == sched
        &&& pm_after == allowed(pm.irq_off(), target, mask)
    }
}

/// Whether the queue of a task can be locked to move it.
pub open spec fn can_affine(
    sched: SchedCoreView,
    pm: ProcessManagerView,
    target: TaskId,
) -> bool {
    &&& sched.wf()
    &&& pm.wf()
    &&& pm.cpu.id < MAX_CPU_NUM
    &&& pm.has(target)
    &&& pm.task(target).sched_info.cpu.id < MAX_CPU_NUM
    &&& !sched.rq(pm.task(target).sched_info.cpu).lock.locked
}

impl SysSchedSetaffinity {
    /// The task that the system call is about.
    pub fn target(pm: &ProcessManager, pid: i32) -> (target: Option<TaskId>)
        requires
            pm@.wf(),
        ensures
            target == affinity_target(pm@, pid),
            target is Some ==> pm@.has(target->Some_0),
    {
        if pid == 0 {
            Some(pm.current)
        } else {
            pm.find_task_by_vpid(
                RawPid {
                    data: #[verifier::truncate]
                    (pid as usize),
                },
            )
        }
    }

    /// Reads a bit map and looks whether it names processors at all, and only such
    /// that could be there.
    pub fn check_mask(sched: &SchedCore, bytes: &Vec<u8>) -> (res: Result<CpuMask, SystemError>)
        ensures
            match res {
                Ok(mask) => user_mask_fits(bytes@) && !user_mask_empty(bytes@)
                    && user_mask_possible(bytes@, sched@.smp.possible) && is_user_mask(
                    bytes@,
                    mask,
                ),
                Err(e) => e == SystemError::EINVAL && (!user_mask_fits(bytes@) || user_mask_empty(
                    bytes@,
                ) || !user_mask_possible(bytes@, sched@.smp.possible)),
            },
    {
        let mask = match Self::parse_user_mask(bytes) {
            Ok(mask) => mask,
            Err(e) => {
                return Err(e);
            },
        };
        if mask.is_empty() {
            assert forall|i: int| 0 <= i < MAX_CPU_NUM implies !#[trigger] user_bit(
                bytes@,
                i,
            ) by {
                assert(mask.has(i) == user_bit(bytes@, i));
            }
            return Err(SystemError::EINVAL);
        }
        proof {
            let i = choose|i: int| #[trigger] mask.has(i);
            assert(user_bit(bytes@, i));
        }
        let mut i: u32 = 0;
        while i < MAX_CPU_NUM
            invariant
                i <= MAX_CPU_NUM,
                is_user_mask(bytes@, mask),
                forall|j: int| 0 <= j < i && user_bit(bytes@, j) ==> #[trigger]
                    sched@.smp.possible.has(j),
            decreases MAX_CPU_NUM - i,
        {
            let cpu = ProcessorId::new(i);
            assert(mask.has(i as int) == user_bit(bytes@, i as int));
            if mask.contains(cpu) && !sched.smp.possible.contains(cpu) {
                assert(!sched@.smp.possible.has(i as int));
                return Err(SystemError::EINVAL);
            }
            i = i + 1;
        }
        Ok(mask)
    }

    /// Locks the queue of a task other than the running one, with interrupts off, and
    /// sets where it may run.
    fn affine_other(
        sched: &mut SchedCore,
        pm: &mut ProcessManager,
        target: TaskId,
        mask: CpuMask,
        irq_guard: IrqFlagsGuard,
        sample: ClockSample,
    ) -> (step: AffinityStep)
        requires
            can_affine(old(sched)@, old(pm)@, target),
            !old(pm)@.irq_enabled,
        ensures
            affine_other_rel(
                old(sched)@,
                old(pm)@,
                target,
                mask,
                irq_guard,
                sample,
                step,
                final(sched)@,
                final(pm)@,
            ),
            final(sched)@.wf(),
            final(pm)@.wf(),
    {
        let task_cpu_id = task_cpu(pm, target);
        let mut src = cpu_rq(sched, task_cpu_id.data() as usize);
        let guard = src.self_lock(pm);
        src.update_rq_clock_from_clock(sample);
        if pm.task(target).sched_info.on_rq == OnRq::Migrating {
            src.self_unlock(guard, pm);
            proof {
                sched@.lemma_with_rq(task_cpu_id, src);
            }
            sched.set_rq(task_cpu_id, src);
            return AffinityStep::Retry { target, mask, irq_guard };
        }
        let p = pm.task(target).with_cpus_allowed(mask);
        pm.set_task(target, p);
        if mask.contains(task_cpu_id) {
            src.self_unlock(guard, pm);
            proof {
                sched@.lemma_with_rq(task_cpu_id, src);
            }
            sched.set_rq(task_cpu_id, src);
            pm.restore_irq(Some(irq_guard));
            return AffinityStep::Done(Ok(0));
        }
        proof {
            sched@.lemma_with_rq(task_cpu_id, src);
        }
        sched.set_rq(task_cpu_id, src);
        AffinityStep::SelectForOther {
            target,
            mask,
            cpu: task_cpu_id,
            irq_guard,
            rq_guard: guard,
        }
    }

    /// Goes on once a task that was between two run queues has arrived.
    pub fn retry(
        sched: &mut SchedCore,
        pm: &mut ProcessManager,
        target: TaskId,
        mask: CpuMask,
        irq_guard: IrqFlagsGuard,
        sample: ClockSample,
    ) -> (step: AffinityStep)
        requires
            can_affine(old(sched)@, old(pm)@, target),
            !old(pm)@.irq_enabled,
        ensures
            affine_other_rel(
                old(sched)@,
                old(pm)@,
                target,
                mask,
                irq_guard,
                sample,
                step,
                final(sched)@,
                final(pm)@,
            ),
            step == AffinityStep::Done(Ok(0)) || step is SelectForOther ==> final(pm)@.task(
                target,
            ).sched_info.cpus_allowed == mask,
            final(sched)@.wf(),
            final(pm)@.wf(),
    {
        Self::affine_other(sched, pm, target, mask, irq_guard, sample)
    }

    /// The first part of the system call. `permitted` tells whether the running task
    /// may change the target, `user_set` is the bit map as it was read from the user,
    /// and `sample` is what the clocks of the processor of the target show.
    pub fn handle(
        &self,
        sched: &mut SchedCore,
        pm: &mut ProcessManager,
        args: &Vec<usize>,
        permitted: bool,
        user_set: Result<Vec<u8>, SystemError>,
        sample: ClockSample,
    ) -> (step: AffinityStep)
        requires
            args@.len() >= 3,
            old(pm)@.wf(),
            affinity_refusal(
                old(pm)@,
                old(sched)@.smp.possible,
                args@[0] as i32,
                args@[1],
                permitted,
                user_set,
            ) is None ==> can_affine(
                old(sched)@,
                old(pm)@,
                affinity_target(old(pm)@, args@[0] as i32)->Some_0,
            ),
        ensures
            match affinity_refusal(
                old(pm)@,
                old(sched)@.smp.possible,
                args@[0] as i32,
                args@[1],
                permitted,
                user_set,
            ) {
                Some(e) => step == AffinityStep::Done(Err(e)) && final(sched)@ == old(sched)@
                    && final(pm)@ == old(pm)@,
                None => exists|mask: CpuMask|
                    #![trigger is_user_mask(user_set->Ok_0@, mask)]
                    is_user_mask(user_set->Ok_0@, mask) && affine_rel(
                        old(sched)@,
                        old(pm)@,
                        affinity_target(old(pm)@, args@[0] as i32)->Some_0,
                        mask,
                        sample,
                        step,
                        final(sched)@,
                        final(pm)@,
                    ),
            },
            step == AffinityStep::Done(Ok(0)) || step is SelectForCurrent || step is SelectForOther
                ==> user_set is Ok && forall|i: int|
                0 <= i < 128 ==> #[trigger] final(pm)@.task(
                    affinity_target(old(pm)@, args@[0] as i32)->Some_0,
                ).sched_info.cpus_allowed.bits@[i] == (i / 8 < user_set->Ok_0@.len()
                    && user_set->Ok_0@[i / 8] & (1u8 << ((i % 8) as u8)) != 0),
    {
        let pid: i32 = #[verifier::truncate]
        (args[0] as i32);
        let size: usize = args[1];
        if size == 0 {
            return AffinityStep::Done(Err(SystemError::EINVAL));
        }
        let target = match Self::target(pm, pid) {
            Some(target) => target,
            None => {
                return AffinityStep::Done(Err(SystemError::ESRCH));
            },
        };
        if !permitted {
            return AffinityStep::Done(Err(SystemError::EPERM));
        }
        let bytes = match user_set {
            Ok(bytes) => bytes,
            Err(e) => {
                return AffinityStep::Done(Err(e));
            },
        };
        let mask = match Self::check_mask(sched, &bytes) {
            Ok(mask) => mask,
            Err(e) => {
                return AffinityStep::Done(Err(e));
            },
        };
        assert(is_user_mask(bytes@, mask));
        assert forall|i: int| 0 <= i < 128 implies #[trigger] mask.bits@[i] == (i / 8 < bytes@.len()
            && bytes@[i / 8] & (1u8 << ((i % 8) as u8)) != 0) by {
            assert(mask.has(i) == user_bit(bytes@, i));
        }
        let irq_guard = pm.save_and_disable_irq();
        if target != pm.current {
            return Self::affine_other(sched, pm, target, mask, irq_guard, sample);
        }
        let p = pm.task(target).with_cpus_allowed(mask);
        pm.set_task(target, p);
        if mask.contains(pm.cpu) {
            pm.restore_irq(Some(irq_guard));
            assert(pm@ == allowed(old(pm)@, target, mask));
            return AffinityStep::Done(Ok(0));
        }
        AffinityStep::SelectForCurrent { target, mask, irq_guard }
    }
}

/// The flags with which a task keeps its wait while it leaves its queue.
pub const DEQUEUE_KEEPING_WAIT: u8 = 0x0a;

/// The flags with which a task from another queue is put on one whose clock is up to
/// date.
pub const ENQUEUE_MOVED: u8 = 0x48;

/// A queue and the tasks as the running task leaves the queue for good.
pub open spec fn left_queue(
    rq: CpuRunQueue,
    pm: ProcessManagerView,
    target: TaskId,
    sample: ClockSample,
) -> RqState {
    let locked = pm.irq_off().preempt_disabled();
    RqState {
        rq: rq.with_lock(true).clocked(sample),
        pm: locked.with_task(target, locked.task(target).with_on_rq(OnRq::Migrating)),
    }
}

/// The running task leaves its queue on the way to `left`, and waits in the wake queue
/// of `dest`.
pub open spec fn move_current_path<K: SchedClasses>(
    sched: SchedCoreView,
    pm: ProcessManagerView,
    target: TaskId,
    dest: ProcessorId,
    sample: ClockSample,
    left: RqState,
    sched_after: SchedCoreView,
    pm_after: ProcessManagerView,
) -> bool {
    let flags = DequeueFlag { bits: DEQUEUE_KEEPING_WAIT };
    let entry = left_queue(sched.rq(pm.cpu), pm, target, sample);
    &&& entry.before_dequeue(target, flags, ClockSample::unread()).class_dequeue::<K>(
        pm.task(target).sched_info.policy,
        target,
        flags,
        left,
    )
    &&& if dest != pm.cpu {
        &&& sched_after == sched.with_waiting(dest, target).with_rq(
            pm.cpu,
            left.rq.with_lock(false),
        )
        &&& pm_after == left.pm.with_task(
            target,
            left.pm.task(target).placed_on(dest),
        ).with_action(Action::ReschedIpi(dest)).unlocked(quiet_guard())
    } else {
        &&& sched_after == sched.with_rq(pm.cpu, left.rq.with_lock(false))
        &&& pm_after == left.pm.unlocked(quiet_guard())
    }
}

/// Whether the running task can leave its processor for `dest`.
pub open spec fn can_move_current(
    sched: SchedCoreView,
    pm: ProcessManagerView,
    target: TaskId,
    dest: ProcessorId,
) -> bool {
    &&& crate::sched::schedule::can_schedule(sched, pm)
    &&& !pm.irq_enabled
    &&& target == pm.current
    &&& sched.rq(pm.cpu).current == Some(target)
    &&& dest.id < MAX_CPU_NUM
    &&& dest != pm.cpu ==> sched.accepts_tasks(dest)
}

impl SysSchedSetaffinity {
    /// The processor that a task goes to.
    pub fn dest(mask: &CpuMask, selected: ProcessorId, cpu: ProcessorId) -> (dest: ProcessorId)
        ensures
            dest == affinity_dest(*mask, selected, cpu),
    {
        if selected.is_invalid() || !mask.contains(selected) {
            match mask.first() {
                Some(first) => first,
                None => cpu,
            }
        } else {
            selected
        }
    }

    /// Takes the running task off its queue `rq`, which is locked for that.
    fn dequeue_current<K: SchedClasses>(
        rq: &mut CpuRunQueue,
        pm: &mut ProcessManager,
        target: TaskId,
        sample: ClockSample,
    ) -> (guard: SpinLockGuard)
        requires
            RqState::of(*old(rq), old(pm)@).wf(),
            old(rq).cpu == old(pm)@.cpu,
            !old(rq).lock.locked,
            old(pm)@.has(target),
            old(pm)@.task(target).sched_info.policy != SchedPolicy::RT,
        ensures
            guard == (SpinLockGuard {
                irq_flag: Some(IrqFlagsGuard { was_enabled: old(pm)@.irq_enabled }),
            }),
            left_queue(*old(rq), old(pm)@, target, sample).before_dequeue(
                target,
                (DequeueFlag { bits: DEQUEUE_KEEPING_WAIT }),
                ClockSample::unread(),
            ).class_dequeue::<K>(
                old(pm)@.task(target).sched_info.policy,
                target,
                (DequeueFlag { bits: DEQUEUE_KEEPING_WAIT }),
                RqState::of(*final(rq), final(pm)@),
            ),
            final(rq).clock_wf(),
            final(rq).cpu == old(rq).cpu,
            final(rq).current == old(rq).current,
            final(rq).idle == old(rq).idle,
            final(rq).sched_domain == old(rq).sched_domain,
            final(pm)@.wf(),
            final(pm)@.cpu == old(pm)@.cpu,
            final(pm)@.current == old(pm)@.current,
            final(pm)@.tasks.len() == old(pm)@.tasks.len(),
            final(pm)@.task(target).sched_info.on_rq == OnRq::Migrating,
            forall|t: TaskId|
                old(pm)@.has(t) ==> old(pm)@.task(t).kept_facts(#[trigger] final(pm)@.task(t)),
    {
        let ghost before = RqState::of(*rq, pm@);
        let guard = rq.self_lock(pm);
        rq.update_rq_clock(pm.cpu, sample);
        let p = pm.task(target).with_on_rq(OnRq::Migrating);
        pm.set_task(target, p);
        let ghost entry = RqState::of(*rq, pm@);
        proof {
            assert(entry == left_queue(before.rq, before.pm, target, sample));
            crate::sched::flags::lemma_flag_words();
        }
        rq.dequeue_task::<K>(
            pm,
            target,
            DequeueFlag { bits: DEQUEUE_KEEPING_WAIT },
            ClockSample::unread(),
        );
        proof {
            let left = RqState::of(*rq, pm@);
            entry.lemma_kept(left);
            assert forall|t: TaskId| before.pm.has(t) implies before.pm.task(t).kept_facts(
                #[trigger] left.pm.task(t),
            ) by {
                assert(entry.pm.task(t).kept_facts(left.pm.task(t)));
            }
        }
        guard
    }

    /// Takes the running task off its queue and hands it over to `dest`.
    fn leave_current<K: SchedClasses>(
        sched: &mut SchedCore,
        pm: &mut ProcessManager,
        target: TaskId,
        dest: ProcessorId,
        sample: ClockSample,
    ) -> (left: Ghost<RqState>)
        requires
            can_move_current(old(sched)@, old(pm)@, target, dest),
        ensures
            move_current_path::<K>(
                old(sched)@,
                old(pm)@,
                target,
                dest,
                sample,
                left@,
                final(sched)@,
                final(pm)@,
            ),
            crate::sched::schedule::can_schedule(final(sched)@, final(pm)@),
            final(pm)@.cpu == old(pm)@.cpu,
            final(sched)@.rq(old(pm)@.cpu).current == old(sched)@.rq(old(pm)@.cpu).current,
            final(pm)@.task(target).migration_target() == old(pm)@.task(
                target,
            ).migration_target(),
            final(pm)@.task(target).sched_info.cpu == if dest != old(pm)@.cpu {
                dest
            } else {
                old(pm)@.task(target).sched_info.cpu
            },
    {
        let ghost sched0 = sched@;
        let ghost pm0 = pm@;
        let cpu = pm.cpu;
        let mut rq = cpu_rq(sched, cpu.data() as usize);
        let guard = Self::dequeue_current::<K>(&mut rq, pm, target, sample);
        let ghost left = RqState::of(rq, pm@);
        proof {
            assert(pm0.task(target).kept_facts(left.pm.task(target)));
            let idle = pm0.upgrade(rq.idle)->Some_0;
            assert(pm0.task(idle).kept_facts(left.pm.task(idle)));
        }
        if dest != cpu {
            let q = pm.task(target).placed_on(dest);
            pm.set_task(target, q);
            ttwu_queue(sched, pm, target, dest, WakeupFlags { bits: WakeupFlags::WF_MIGRATED });
        }
        rq.self_unlock(guard, pm);
        proof {
            sched@.lemma_with_rq(cpu, rq);
        }
        sched.set_rq(cpu, rq);
        Ghost(left)
    }

    /// The second part of the system call for the running task, with `selected` as the
    /// processor that was selected for it: the task goes where it may run, and gives
    /// up this processor.
    pub fn move_current<K: SchedClasses>(
        sched: &mut SchedCore,
        pm: &mut ProcessManager,
        target: TaskId,
        mask: CpuMask,
        irq_guard: IrqFlagsGuard,
        selected: ProcessorId,
        sample: ClockSample,
        resched_sample: ClockSample,
    ) -> (step: AffinityStep)
        requires
            can_move_current(
                old(sched)@,
                old(pm)@,
                target,
                affinity_dest(mask, selected, old(pm)@.cpu),
            ),
        ensures
            exists|
                left: RqState,
                sched_mid: SchedCoreView,
                pm_mid: ProcessManagerView,
                switched: bool,
                next: TaskId,
                after: PassState,
                pm_after: ProcessManagerView,
            |
                #![trigger move_current_path::<K>(
                    old(sched)@,
                    old(pm)@,
                    target,
                    affinity_dest(mask, selected, old(pm)@.cpu),
                    sample,
                    left,
                    sched_mid,
                    pm_mid,
                ), crate::sched::schedule::schedule_once::<K>(
                    sched_mid,
                    pm_mid,
                    (SchedMode { bits: SchedMode::SM_NONE }),
                    resched_sample,
                    switched,
                    next,
                    after,
                    final(sched)@,
                    pm_after,
                )]
                move_current_path::<K>(
                    old(sched)@,
                    old(pm)@,
                    target,
                    affinity_dest(mask, selected, old(pm)@.cpu),
                    sample,
                    left,
                    sched_mid,
                    pm_mid,
                ) && crate::sched::schedule::schedule_once::<K>(
                    sched_mid,
                    pm_mid,
                    (SchedMode { bits: SchedMode::SM_NONE }),
                    resched_sample,
                    switched,
                    next,
                    after,
                    final(sched)@,
                    pm_after,
                ) && if switched {
                    step == AffinityStep::Switched { irq_guard } && final(pm)@ == pm_after
                } else {
                    step == AffinityStep::Done(Ok(0)) && final(pm)@ == irq_back(
                        pm_after,
                        irq_guard,
                    )
                },
            old(pm)@.task(target).migration_target() is None && affinity_dest(
                mask,
                selected,
                old(pm)@.cpu,
            ) != old(pm)@.cpu ==> final(pm)@.task(target).sched_info.cpu == affinity_dest(
                mask,
                selected,
                old(pm)@.cpu,
            ),
    {
        let ghost sched0 = sched@;
        let ghost pm0 = pm@;
        let dest_cpu = Self::dest(&mask, selected, pm.cpu);
        let Ghost(left) = Self::leave_current::<K>(sched, pm, target, dest_cpu, sample);
        let ghost sched1 = sched@;
        let ghost pm1 = pm@;
        assert(move_current_path::<K>(
            sched0,
            pm0,
            target,
            affinity_dest(mask, selected, pm0.cpu),
            sample,
            left,
            sched1,
            pm1,
        ));
        let switched = schedule::<K>(
            sched,
            pm,
            SchedMode { bits: SchedMode::SM_NONE },
            resched_sample,
        );
        let ghost pm2 = pm@;
        proof {
            let (next, after) = choose|next: TaskId, after: PassState|
                crate::sched::schedule::schedule_once::<K>(
                    sched1,
                    pm1,
                    (SchedMode { bits: SchedMode::SM_NONE }),
                    resched_sample,
                    switched,
                    next,
                    after,
                    sched@,
                    pm2,
                );
            assert(crate::sched::schedule::schedule_once::<K>(
                sched1,
                pm1,
                (SchedMode { bits: SchedMode::SM_NONE }),
                resched_sample,
                switched,
                next,
                after,
                sched@,
                pm2,
            ));
        }
        if switched {
            return AffinityStep::Switched { irq_guard };
        }
        pm.restore_irq(Some(irq_guard));
        AffinityStep::Done(Ok(0))
    }

    /// The end of the system call for a task that is back. If it should give up the
    /// processor again it does so first.
    pub fn finish<K: SchedClasses>(
        sched: &mut SchedCore,
        pm: &mut ProcessManager,
        irq_guard: IrqFlagsGuard,
        sample: ClockSample,
    ) -> (step: AffinityStep)
        requires
            old(pm)@.wf(),
            old(pm)@.task(old(pm)@.current).flags.need_schedule
                ==> crate::sched::schedule::can_schedule(old(sched)@, old(pm)@),
        ensures
            !old(pm)@.task(old(pm)@.current).flags.need_schedule ==> step == AffinityStep::Done(
                Ok(0),
            ) && final(sched)@ == old(sched)@ && final(pm)@ == irq_back(old(pm)@, irq_guard),
            old(pm)@.task(old(pm)@.current).flags.need_schedule ==> exists|
                again: bool,
                next: TaskId,
                after: PassState,
                pm_after: ProcessManagerView,
            |
                #[trigger] crate::sched::schedule::schedule_once::<K>(
                    old(sched)@,
                    old(pm)@,
                    (SchedMode { bits: SchedMode::SM_NONE }),
                    sample,
                    again,
                    next,
                    after,
                    final(sched)@,
                    pm_after,
                ) && if again {
                    step == AffinityStep::Switched { irq_guard } && final(pm)@ == pm_after
                } else {
                    step == AffinityStep::Done(Ok(0)) && final(pm)@ == irq_back(
                        pm_after,
                        irq_guard,
                    )
                },
    {
        let again = crate::sched::schedule::schedule_back::<K>(
            sched,
            pm,
            SchedMode { bits: SchedMode::SM_NONE },
            sample,
        );
        let ghost pm1 = pm@;
        proof {
            if old(pm)@.task(old(pm)@.current).flags.need_schedule {
                let (next, after) = choose|next: TaskId, after: PassState|
                    crate::sched::schedule::schedule_once::<K>(
                        old(sched)@,
                        old(pm)@,
                        (SchedMode { bits: SchedMode::SM_NONE }),
                        sample,
                        again,
                        next,
                        after,
                        sched@,
                        pm1,
                    );
                assert(crate::sched::schedule::schedule_once::<K>(
                    old(sched)@,
                    old(pm)@,
                    (SchedMode { bits: SchedMode::SM_NONE }),
                    sample,
                    again,
                    next,
                    after,
                    sched@,
                    pm1,
                ));
            }
        }
        if again {
            return AffinityStep::Switched { irq_guard };
        }
        pm.restore_irq(Some(irq_guard));
        AffinityStep::Done(Ok(0))
    }
}

/// A queued task leaves its queue `cpu`, which is locked, on the way to `left`, is put
/// on the queue of `dest` on the way to `joined`, and compared with the running task
/// there on the way to `end`.
pub open spec fn move_queued_path<K: SchedClasses>(
    sched: SchedCoreView,
    pm: ProcessManagerView,
    target: TaskId,
    cpu: ProcessorId,
    dest: ProcessorId,
    rq_guard: SpinLockGuard,
    sample: ClockSample,
    left: RqState,
    joined: RqState,
    end: RqState,
) -> bool {
    let flags = DequeueFlag { bits: DequeueFlag::DEQUEUE_NOCLOCK };
    let entry = RqState {
        rq: sched.rq(cpu),
        pm: pm.with_task(target, pm.task(target).with_on_rq(OnRq::Migrating)),
    };
    let arrival = RqState {
        rq: sched.rq(dest).with_lock(true).clocked(sample),
        pm: left.pm.with_task(target, left.pm.task(target).placed_on(dest)).unlocked(
            rq_guard,
        ).irq_off().preempt_disabled(),
    };
    &&& entry.before_dequeue(target, flags, ClockSample::unread()).class_dequeue::<K>(
        pm.task(target).sched_info.policy,
        target,
        flags,
        left,
    )
    &&& arrival.activate::<K>(
        target,
        EnqueueFlag { bits: ENQUEUE_MOVED },
        ClockSample::unread(),
        joined,
    )
    &&& joined.check_preempt::<K>(
        target,
        WakeupFlags { bits: WakeupFlags::WF_MIGRATED },
        end,
    )
}

/// What happens to another task that may not stay on the processor `cpu`: a queued one
/// moves; the processor of a running one is interrupted, and the task moves when it is
/// woken next; so does a sleeping one.
pub open spec fn move_other_rel<K: SchedClasses>(
    sched: SchedCoreView,
    pm: ProcessManagerView,
    target: TaskId,
    cpu: ProcessorId,
    dest: ProcessorId,
    irq_guard: IrqFlagsGuard,
    rq_guard: SpinLockGuard,
    sample: ClockSample,
    sched_after: SchedCoreView,
    pm_after: ProcessManagerView,
) -> bool {
    let info = pm.task(target).sched_info;
    let unlocked = sched.with_rq(cpu, sched.rq(cpu).with_lock(false));
    if info.on_rq == OnRq::Queued && info.on_cpu is None {
        exists|left: RqState, joined: RqState, end: RqState|
            #[trigger] move_queued_path::<K>(
                sched,
                pm,
                target,
                cpu,
                dest,
                rq_guard,
                sample,
                left,
                joined,
                end,
            ) && sched_after == sched.with_rq(cpu, left.rq.with_lock(false)).with_rq(
                dest,
                end.rq.with_lock(false),
            ) && pm_after == irq_back(end.pm.unlocked(quiet_guard()), irq_guard)
    } else if info.on_cpu is Some {
        &&& sched_after == unlocked
        &&& pm_after == irq_back(
            pm.unlocked(rq_guard).with_action(Action::ReschedIpi(info.on_cpu->Some_0)),
            irq_guard,
        )
    } else {
        &&& sched_after == unlocked
        &&& pm_after == irq_back(pm.unlocked(rq_guard), irq_guard)
    }
}

/// Whether a task that may not stay on the processor `cpu`, whose queue is locked, can
/// go to `dest`.
pub open spec fn can_move_other(
    sched: SchedCoreView,
    pm: ProcessManagerView,
    target: TaskId,
    cpu: ProcessorId,
    dest: ProcessorId,
) -> bool {
    &&& sched.wf()
    &&& pm.wf()
    &&& !pm.irq_enabled
    &&& pm.has(target)
    &&& cpu.id < MAX_CPU_NUM
    &&& pm.task(target).sched_info.on_rq == OnRq::Queued && pm.task(target).sched_info.on_cpu
        is None ==> {
        &&& dest.id < MAX_CPU_NUM
        &&& dest != cpu
        &&& sched.accepts_tasks(dest)
        &&& !sched.rq(dest).lock.locked
        &&& RqState::of(sched.rq(dest), pm).has_curr()
        &&& pm.task(target).sched_info.policy != SchedPolicy::RT
    }
}

impl SysSchedSetaffinity {
    /// Takes a queued task off its queue `src`, which is locked, and has it belong to
    /// `dest`.
    fn leave_other<K: SchedClasses>(
        src: &mut CpuRunQueue,
        pm: &mut ProcessManager,
        target: TaskId,
        dest: ProcessorId,
    ) -> (left: Ghost<RqState>)
        requires
            RqState::of(*old(src), old(pm)@).wf(),
            old(pm)@.has(target),
            old(pm)@.task(target).sched_info.policy != SchedPolicy::RT,
        ensures
            RqState::of(
                *old(src),
                old(pm)@.with_task(target, old(pm)@.task(target).with_on_rq(OnRq::Migrating)),
            ).before_dequeue(
                target,
                (DequeueFlag { bits: DequeueFlag::DEQUEUE_NOCLOCK }),
                ClockSample::unread(),
            ).class_dequeue::<K>(
                old(pm)@.task(target).sched_info.policy,
                target,
                (DequeueFlag { bits: DequeueFlag::DEQUEUE_NOCLOCK }),
                left@,
            ),
            *final(src) == left@.rq,
            final(pm)@ == left@.pm.with_task(target, left@.pm.task(target).placed_on(dest)),
            final(pm)@.task(target).sched_info.cpu == dest,
            RqState::of(*old(src), old(pm)@).stays(RqState::of(*final(src), final(pm)@)),
    {
        let ghost before = RqState::of(*src, pm@);
        let p = pm.task(target).with_on_rq(OnRq::Migrating);
        pm.set_task(target, p);
        let ghost entry = RqState::of(*src, pm@);
        proof {
            before.lemma_stays_step(target, p, *src);
            before.lemma_stayed(entry);
            crate::sched::flags::lemma_flag_words();
        }
        src.dequeue_task::<K>(
            pm,
            target,
            DequeueFlag { bits: DequeueFlag::DEQUEUE_NOCLOCK },
            ClockSample::unread(),
        );
        let ghost left = RqState::of(*src, pm@);
        proof {
            entry.lemma_kept(left);
            entry.lemma_stays(left);
            before.lemma_stays_on(entry, left);
        }
        let q = pm.task(target).placed_on(dest);
        pm.set_task(target, q);
        proof {
            left.lemma_stays_step(target, q, *src);
            before.lemma_stays_on(left, RqState::of(*src, pm@));
        }
        Ghost(left)
    }

    /// Puts a task that belongs to `dest` on its queue there.
    fn join_other<K: SchedClasses>(
        sched: &mut SchedCore,
        pm: &mut ProcessManager,
        target: TaskId,
        dest: ProcessorId,
        sample: ClockSample,
    ) -> (states: Ghost<(RqState, RqState)>)
        requires
            old(sched)@.wf(),
            old(pm)@.wf(),
            !old(pm)@.irq_enabled,
            old(pm)@.has(target),
            old(pm)@.task(target).sched_info.policy != SchedPolicy::RT,
            dest.id < MAX_CPU_NUM,
            !old(sched)@.rq(dest).lock.locked,
            RqState::of(old(sched)@.rq(dest), old(pm)@).has_curr(),
        ensures
            RqState::of(
                old(sched)@.rq(dest).with_lock(true).clocked(sample),
                old(pm)@.irq_off().preempt_disabled(),
            ).activate::<K>(
                target,
                (EnqueueFlag { bits: ENQUEUE_MOVED }),
                ClockSample::unread(),
                states@.0,
            ),
            states@.0.check_preempt::<K>(
                target,
                (WakeupFlags { bits: WakeupFlags::WF_MIGRATED }),
                states@.1,
            ),
            final(sched)@ == old(sched)@.with_rq(dest, states@.1.rq.with_lock(false)),
            final(sched)@.wf(),
            final(pm)@ == states@.1.pm.unlocked(quiet_guard()),
            final(pm)@.task(target).sched_info.on_rq == OnRq::Queued,
            final(pm)@.task(target).sched_info.cpu == old(pm)@.task(target).sched_info.cpu,
            final(pm)@.wf(),
    {
        let mut dst = cpu_rq(sched, dest.data() as usize);
        let guard = dst.self_lock(pm);
        dst.update_rq_clock_from_clock(sample);
        let ghost arrival = RqState::of(dst, pm@);
        proof {
            crate::sched::flags::lemma_flag_words();
        }
        dst.activate_task::<K>(
            pm,
            target,
            EnqueueFlag { bits: ENQUEUE_MOVED },
            ClockSample::unread(),
        );
        let ghost joined = RqState::of(dst, pm@);
        proof {
            arrival.lemma_kept(joined);
            assert(arrival.pm.task(target).kept_facts(joined.pm.task(target)));
        }
        dst.check_preempt_current::<K>(
            pm,
            target,
            WakeupFlags { bits: WakeupFlags::WF_MIGRATED },
        );
        let ghost end = RqState::of(dst, pm@);
        proof {
            joined.lemma_spares_keeps(end);
            joined.lemma_kept(end);
            joined.lemma_spared(end, target);
        }
        dst.self_unlock(guard, pm);
        proof {
            sched@.lemma_with_rq(dest, dst);
        }
        sched.set_rq(dest, dst);
        Ghost((joined, end))
    }

    /// Moves a queued task from its queue `cpu`, which is locked, to `dest`.
    fn move_queued<K: SchedClasses>(
        sched: &mut SchedCore,
        pm: &mut ProcessManager,
        target: TaskId,
        cpu: ProcessorId,
        dest: ProcessorId,
        rq_guard: SpinLockGuard,
        sample: ClockSample,
    ) -> (states: Ghost<(RqState, RqState, RqState)>)
        requires
            can_move_other(old(sched)@, old(pm)@, target, cpu, dest),
            old(pm)@.task(target).sched_info.on_rq == OnRq::Queued,
            old(pm)@.task(target).sched_info.on_cpu is None,
            rq_guard == quiet_guard(),
        ensures
            move_queued_path::<K>(
                old(sched)@,
                old(pm)@,
                target,
                cpu,
                dest,
                rq_guard,
                sample,
                states@.0,
                states@.1,
                states@.2,
            ),
            final(sched)@ == old(sched)@.with_rq(cpu, states@.0.rq.with_lock(false)).with_rq(
                dest,
                states@.2.rq.with_lock(false),
            ),
            final(pm)@ == states@.2.pm.unlocked(quiet_guard()),
            final(pm)@.task(target).sched_info.on_rq == OnRq::Queued,
            final(pm)@.task(target).sched_info.cpu == dest,
            final(sched)@.wf(),
            final(pm)@.wf(),
    {
        let ghost sched0 = sched@;
        let ghost pm0 = pm@;
        let mut src = cpu_rq(sched, cpu.data() as usize);
        let ghost before = RqState::of(src, pm@);
        let Ghost(left) = Self::leave_other::<K>(&mut src, pm, target, dest);
        proof {
            before.lemma_stayed(RqState::of(src, pm@));
            assert(pm0.task(target).stays(pm@.task(target)));
        }
        let ghost pm1 = pm@;
        src.self_unlock(rq_guard, pm);
        proof {
            sched0.lemma_with_rq(cpu, src);
        }
        sched.set_rq(cpu, src);
        let ghost sched1 = sched@;
        let ghost pm2 = pm@;
        let Ghost(states) = Self::join_other::<K>(sched, pm, target, dest, sample);
        proof {
            assert(sched1.rq(dest) == sched0.rq(dest));
            assert(move_queued_path::<K>(
                sched0,
                pm0,
                target,
                cpu,
                dest,
                rq_guard,
                sample,
                left,
                states.0,
                states.1,
            ));
        }
        Ghost((left, states.0, states.1))
    }

    /// The second part of the system call for another task than the running one, with
    /// `selected` as the processor that was selected for it. `sample` is what the
    /// clocks of the processor that it goes to show.
    pub fn move_other<K: SchedClasses>(
        sched: &mut SchedCore,
        pm: &mut ProcessManager,
        target: TaskId,
        mask: CpuMask,
        cpu: ProcessorId,
        irq_guard: IrqFlagsGuard,
        rq_guard: SpinLockGuard,
        selected: ProcessorId,
        sample: ClockSample,
    ) -> (step: AffinityStep)
        requires
            can_move_other(
                old(sched)@,
                old(pm)@,
                target,
                cpu,
                affinity_dest(mask, selected, cpu),
            ),
            rq_guard == quiet_guard(),
        ensures
            step == AffinityStep::Done(Ok(0)),
            move_other_rel::<K>(
                old(sched)@,
                old(pm)@,
                target,
                cpu,
                affinity_dest(mask, selected, cpu),
                irq_guard,
                rq_guard,
                sample,
                final(sched)@,
                final(pm)@,
            ),
            old(pm)@.task(target).sched_info.on_rq == OnRq::Queued && old(pm)@.task(
                target,
            ).sched_info.on_cpu is None ==> final(pm)@.task(target).sched_info.on_rq
                == OnRq::Queued && final(pm)@.task(target).sched_info.cpu == affinity_dest(
                mask,
                selected,
                cpu,
            ),
            final(sched)@.wf(),
            final(pm)@.wf(),
    {
        let dest_cpu = Self::dest(&mask, selected, cpu);
        let info = pm.task(target).sched_info;
        if info.on_rq == OnRq::Queued && info.on_cpu.is_none() {
            let Ghost(states) = Self::move_queued::<K>(
                sched,
                pm,
                target,
                cpu,
                dest_cpu,
                rq_guard,
                sample,
            );
        } else {
            let mut src = cpu_rq(sched, cpu.data() as usize);
            src.self_unlock(rq_guard, pm);
            proof {
                sched@.lemma_with_rq(cpu, src);
            }
            sched.set_rq(cpu, src);
            if let Some(running) = info.on_cpu {
                send_resched_ipi(pm, running);
            }
        }
        pm.restore_irq(Some(irq_guard));
        AffinityStep::Done(Ok(0))
    }
}

/// Where a task goes it may run, if it may run anywhere.
pub proof fn law_affinity_dest_is_allowed(
    mask: CpuMask,
    selected: ProcessorId,
    cpu: ProcessorId,
)
    requires
        !mask.spec_is_empty(),
    ensures
        mask.has(affinity_dest(mask, selected, cpu).id as int),
{
    lemma_lowest(mask, 0);
}

/// The lowest member of a set at or above a slot is a member, and there is one if there
/// is any member there.
proof fn lemma_lowest(mask: CpuMask, i: int)
    requires
        0 <= i,
    ensures
        match mask.lowest_from(i) {
            Some(c) => mask.has(c.id as int),
            None => forall|j: int| i <= j ==> !#[trigger] mask.has(j),
        },
    decreases MAX_CPU_NUM - i,
{
    if i < MAX_CPU_NUM && !mask.has(i) {
        lemma_lowest(mask, i + 1);
        if mask.lowest_from(i) is None {
            assert forall|j: int| i <= j implies !#[trigger] mask.has(j) by {
                if j > i {
                    assert(i + 1 <= j);
                }
            }
        }
    }
}

/// When the system call is over, or asks for a processor to be selected, the task may run on
/// exactly the processors that the user named: slot `i` is in the set if bit `i % 8` of byte
/// `i / 8` is set. That holds of the running task and of any other one, and the same set goes
/// along with what is still to be done. Nothing else of the task changes, and no other task.
pub proof fn law_task_may_run_where_the_user_says(
    sched: SchedCoreView,
    pm: ProcessManagerView,
    target: TaskId,
    user_set: Seq<u8>,
    mask: CpuMask,
    sample: ClockSample,
    step: AffinityStep,
    sched_after: SchedCoreView,
    pm_after: ProcessManagerView,
)
    requires
        pm.has(target),
        is_user_mask(user_set, mask),
        affine_rel(sched, pm, target, mask, sample, step, sched_after, pm_after),
    ensures
        !(step is Retry) ==> forall|i: int|
            0 <= i < 128 ==> #[trigger] pm_after.task(target).sched_info.cpus_allowed.bits@[i] == (i
                / 8 < user_set.len() && user_set[i / 8] & (1u8 << ((i % 8) as u8)) != 0),
        step is Retry ==> pm_after.task(target).sched_info == pm.task(target).sched_info,
        pm_after.task(target).sched_info == (ProcessSchedulerInfo {
            cpus_allowed: pm_after.task(target).sched_info.cpus_allowed,
            ..pm.task(target).sched_info
        }),
        pm_after.task(target).flags == pm.task(target).flags,
        forall|t: TaskId|
            pm.has(t) && t != target ==> #[trigger] pm_after.tasks[t as int] == pm.tasks[t as int],
        match step {
            AffinityStep::Done(res) => res == Ok::<usize, SystemError>(0),
            AffinityStep::Retry { target: t, mask: m, .. } => t == target && forall|i: int|
                0 <= i < 128 ==> #[trigger] m.bits@[i] == (i / 8 < user_set.len() && user_set[i / 8]
                    & (1u8 << ((i % 8) as u8)) != 0),
            AffinityStep::SelectForCurrent { target: t, mask: m, .. } => t == target && target
                == pm.current && m == pm_after.task(target).sched_info.cpus_allowed,
            AffinityStep::SelectForOther { target: t, mask: m, cpu, .. } => t == target && target
                != pm.current && m == pm_after.task(target).sched_info.cpus_allowed && cpu
                == pm.task(target).sched_info.cpu,
            AffinityStep::Switched { .. } => false,
        },
{
    assert forall|i: int| 0 <= i < 128 implies #[trigger] mask.bits@[i] == (i / 8 < user_set.len()
        && user_set[i / 8] & (1u8 << ((i % 8) as u8)) != 0) by {
        assert(mask.has(i) == user_bit(user_set, i));
    }
    if !(step is Retry) {
        assert(pm_after.task(target).sched_info.cpus_allowed == mask);
    }
}

/// The same goes for another task that was between two run queues at first: when `retry` is over
/// or asks for a processor to be selected, the task may run on exactly the set that it was given.
pub proof fn law_task_may_run_where_retry_says(
    sched: SchedCoreView,
    pm: ProcessManagerView,
    target: TaskId,
    mask: CpuMask,
    irq_guard: IrqFlagsGuard,
    sample: ClockSample,
    step: AffinityStep,
    sched_after: SchedCoreView,
    pm_after: ProcessManagerView,
)
    requires
        pm.has(target),
        affine_other_rel(
            sched,
            pm,
            target,
            mask,
            irq_guard,
            sample,
            step,
            sched_after,
            pm_after,
        ),
    ensures
        !(step is Retry) ==> pm_after.task(target).sched_info.cpus_allowed == mask,
        step is Retry ==> pm_after.task(target).sched_info.cpus_allowed == pm.task(
            target,
        ).sched_info.cpus_allowed,
        forall|t: TaskId|
            pm.has(t) && t != target ==> #[trigger] pm_after.tasks[t as int] == pm.tasks[t as int],
        step is Retry <==> pm.task(target).sched_info.on_rq == OnRq::Migrating,
        step is Done || step is Retry || step is SelectForOther,
        step matches AffinityStep::Done(res) ==> res == Ok::<usize, SystemError>(0),
{
}

/// The call is over at once exactly if the task may stay where it is. Only a task between two run
/// queues has to be tried again. Interrupts go back to what they were once the call is over, and
/// are off till then, and the queue of another task stays locked only while that task has to
/// leave it.
pub proof fn law_task_that_may_stay_is_done(
    sched: SchedCoreView,
    pm: ProcessManagerView,
    target: TaskId,
    mask: CpuMask,
    sample: ClockSample,
    step: AffinityStep,
    sched_after: SchedCoreView,
    pm_after: ProcessManagerView,
)
    requires
        can_affine(sched, pm, target),
        affine_rel(sched, pm, target, mask, sample, step, sched_after, pm_after),
    ensures
        target == pm.current ==> (step is Done <==> mask.bits@[pm.cpu.id as int]) && (
        step is SelectForCurrent <==> !mask.bits@[pm.cpu.id as int]) && sched_after == sched,
        target != pm.current ==> ({
            let info = pm.task(target).sched_info;
            &&& step is Retry <==> info.on_rq == OnRq::Migrating
            &&& step is Done <==> info.on_rq != OnRq::Migrating && mask.bits@[info.cpu.id as int]
            &&& step is SelectForOther <==> info.on_rq != OnRq::Migrating
                && !mask.bits@[info.cpu.id as int]
            &&& sched_after.rq(info.cpu).lock.locked == (step is SelectForOther)
        }),
        pm_after.irq_enabled == (step is Done && pm.irq_enabled),
{
}

/// The system call is refused without an effect on any of these grounds, in this order: no room
/// for the bit map, no such task, no permission, a bit map that cannot be read, and one that
/// names no processor, a slot that does not exist or a processor that could never be there.
/// Otherwise it is carried out.
pub proof fn law_grounds_for_refusing_an_affinity(
    pm: ProcessManagerView,
    possible: CpuMask,
    pid: i32,
    size: usize,
    permitted: bool,
    user_set: Result<Vec<u8>, SystemError>,
)
    ensures
        ({
            let refusal = affinity_refusal(pm, possible, pid, size, permitted, user_set);
            let known = pid == 0 || pm.find_vpid(RawPid { data: pid as usize }) is Some;
            &&& size == 0 ==> refusal == Some(SystemError::EINVAL)
            &&& size != 0 && !known ==> refusal == Some(SystemError::ESRCH)
            &&& size != 0 && known && !permitted ==> refusal == Some(SystemError::EPERM)
            &&& size != 0 && known && permitted && user_set is Err ==> refusal == Some(
                user_set->Err_0,
            )
            &&& size != 0 && known && permitted && user_set is Ok ==> ({
                let bytes = user_set->Ok_0@;
                let named = |i: int|
                    0 <= i && i / 8 < bytes.len() && bytes[i / 8] & (1u8 << ((i % 8) as u8)) != 0;
                let good = (exists|i: int| #[trigger] named(i)) && (forall|i: int| #[trigger]
                    named(i) ==> i < 128 && possible.bits@[i]);
                refusal == if good {
                    None
                } else {
                    Some(SystemError::EINVAL)
                }
            })
        }),
{
    if size != 0 && affinity_target(pm, pid) is Some && permitted && user_set is Ok {
        let bytes = user_set->Ok_0@;
        let named = |i: int|
            0 <= i && i / 8 < bytes.len() && bytes[i / 8] & (1u8 << ((i % 8) as u8)) != 0;
        assert forall|i: int| 0 <= i implies #[trigger] named(i) == user_bit(bytes, i) by {}
        let good = (exists|i: int| #[trigger] named(i)) && (forall|i: int| #[trigger]
            named(i) ==> i < 128 && possible.bits@[i]);
        let fits = user_mask_fits(bytes);
        let empty = user_mask_empty(bytes);
        let fine = user_mask_possible(bytes, possible);
        if good {
            let w = choose|i: int| #[trigger] named(i);
            assert(user_bit(bytes, w) && 0 <= w < MAX_CPU_NUM);
            assert forall|k: int| CPU_MASK_BYTES <= k < bytes.len() implies #[trigger] bytes[k]
                == 0 by {
                if bytes[k] != 0 {
                    let bit = lemma_some_bit(bytes[k]);
                    let i = 8 * k + bit;
                    assert(i / 8 == k && i % 8 == bit);
                    assert(named(i));
                }
            }
            assert forall|i: int| 0 <= i < MAX_CPU_NUM && user_bit(bytes, i) implies
                #[trigger] possible.has(i) by {
                assert(named(i));
            }
        }
        if fits && !empty && fine {
            let w = choose|i: int| 0 <= i < MAX_CPU_NUM && #[trigger] user_bit(bytes, i);
            assert(named(w));
            assert forall|i: int| #[trigger] named(i) implies i < 128 && possible.bits@[i] by {
                if i >= 128 {
                    assert(bytes[i / 8] == 0);
                    lemma_zero_byte(i % 8);
                } else {
                    assert(user_bit(bytes, i));
                    assert(possible.has(i));
                }
            }
        }
    }
}

/// A byte that is not 0 has a bit that is set.
proof fn lemma_some_bit(byte: u8) -> (bit: int)
    requires
        byte != 0,
    ensures
        0 <= bit < 8,
        byte & (1u8 << (bit as u8)) != 0,
{
    assert(byte != 0 ==> byte & (1u8 << 0u8) != 0 || byte & (1u8 << 1u8) != 0 || byte & (1u8 << 2u8)
        != 0 || byte & (1u8 << 3u8) != 0 || byte & (1u8 << 4u8) != 0 || byte & (1u8 << 5u8) != 0
        || byte & (1u8 << 6u8) != 0 || byte & (1u8 << 7u8) != 0) by (bit_vector);
    if byte & (1u8 << 0u8) != 0 {
        0
    } else if byte & (1u8 << 1u8) != 0 {
        1
    } else if byte & (1u8 << 2u8) != 0 {
        2
    } else if byte & (1u8 << 3u8) != 0 {
        3
    } else if byte & (1u8 << 4u8) != 0 {
        4
    } else if byte & (1u8 << 5u8) != 0 {
        5
    } else if byte & (1u8 << 6u8) != 0 {
        6
    } else {
        7
    }
}

/// A task goes to the processor that was selected if the set holds it, and otherwise to the
/// lowest one that the set holds.
pub proof fn law_task_goes_where_it_may_run(mask: CpuMask, selected: ProcessorId, cpu: ProcessorId)
    ensures
        selected.id < 128 && mask.bits@[selected.id as int] ==> affinity_dest(mask, selected, cpu)
            == selected,
        !(selected.id < 128 && mask.bits@[selected.id as int]) ==> {
            let dest = affinity_dest(mask, selected, cpu);
            ||| (forall|j: int| 0 <= j < 128 ==> !#[trigger] mask.bits@[j]) && dest == cpu
            ||| dest.id < 128 && mask.bits@[dest.id as int] && forall|j: int|
                0 <= j < dest.id ==> !#[trigger] mask.bits@[j]
        },
{
    lemma_lowest_is_first(mask, 0);
    let dest = affinity_dest(mask, selected, cpu);
    if !(selected.id < 128 && mask.bits@[selected.id as int]) {
        if mask.lowest() is None {
            assert forall|j: int| 0 <= j < 128 implies !#[trigger] mask.bits@[j] by {
                assert(!mask.has(j));
            }
        } else {
            assert forall|j: int| 0 <= j < dest.id implies !#[trigger] mask.bits@[j] by {
                assert(!mask.has(j));
            }
        }
    }
}

/// The lowest member of a set at or above a slot is a member, with no member between.
proof fn lemma_lowest_is_first(mask: CpuMask, i: int)
    requires
        0 <= i,
    ensures
        match mask.lowest_from(i) {
            Some(c) => mask.has(c.id as int) && forall|j: int|
                i <= j < c.id ==> !#[trigger] mask.has(j),
            None => forall|j: int| i <= j ==> !#[trigger] mask.has(j),
        },
    decreases MAX_CPU_NUM - i,
{
    if i < MAX_CPU_NUM && !mask.has(i) {
        lemma_lowest_is_first(mask, i + 1);
        match mask.lowest_from(i) {
            Some(c) => {
                assert forall|j: int| i <= j < c.id implies !#[trigger] mask.has(j) by {
                    if j > i {
                        assert(i + 1 <= j);
                    }
                }
            },
            None => {
                assert forall|j: int| i <= j implies !#[trigger] mask.has(j) by {
                    if j > i {
                        assert(i + 1 <= j);
                    }
                }
            },
        }
    }
}

/// A task that is not on a queue is not touched when it has to leave its processor, nor is one
/// that runs, but the processor that it runs on is interrupted. The queue is unlocked, and
/// interrupts go back to what they were.
pub proof fn law_task_that_is_not_queued_moves_later<K: SchedClasses>(
    sched: SchedCoreView,
    pm: ProcessManagerView,
    target: TaskId,
    cpu: ProcessorId,
    dest: ProcessorId,
    irq_guard: IrqFlagsGuard,
    sample: ClockSample,
    sched_after: SchedCoreView,
    pm_after: ProcessManagerView,
)
    requires
        can_move_other(sched, pm, target, cpu, dest),
        pm.task(target).sched_info.on_rq != OnRq::Queued || pm.task(target).sched_info.on_cpu
            is Some,
        move_other_rel::<K>(
            sched,
            pm,
            target,
            cpu,
            dest,
            irq_guard,
            quiet_guard(),
            sample,
            sched_after,
            pm_after,
        ),
    ensures
        pm_after.tasks == pm.tasks,
        pm_after.irq_enabled == irq_guard.was_enabled,
        !sched_after.rq(cpu).lock.locked,
        match pm.task(target).sched_info.on_cpu {
            Some(running) => pm_after.actions == pm.actions.push(Action::ReschedIpi(running)),
            None => pm_after.actions == pm.actions,
        },
{
}

/// The running task that has to leave its processor waits in the wake queue of the one that it
/// goes to, belongs there, and that processor is interrupted; till it arrives it is between two
/// run queues. The queue that it left is unlocked.
pub proof fn law_running_task_waits_where_it_goes<K: SchedClasses>(
    sched: SchedCoreView,
    pm: ProcessManagerView,
    target: TaskId,
    dest: ProcessorId,
    sample: ClockSample,
    left: RqState,
    sched_after: SchedCoreView,
    pm_after: ProcessManagerView,
)
    requires
        can_move_current(sched, pm, target, dest),
        pm.has(target),
        dest != pm.cpu,
        move_current_path::<K>(sched, pm, target, dest, sample, left, sched_after, pm_after),
    ensures
        pm_after.task(target).sched_info.cpu == dest,
        pm_after.task(target).sched_info.on_rq == OnRq::Migrating,
        pm_after.task(target).sched_info.state == pm.task(target).sched_info.state,
        pm_after.task(target).sched_info.cpus_allowed == pm.task(target).sched_info.cpus_allowed,
        pm_after.actions.last() == Action::ReschedIpi(dest),
        sched_after.wakequeues[dest.id as int] == sched.wakequeues[dest.id as int].push(target),
        !sched_after.rq(pm.cpu).lock.locked,
{
    let flags = DequeueFlag { bits: DEQUEUE_KEEPING_WAIT };
    let entry = left_queue(sched.rq(pm.cpu), pm, target, sample);
    let ready = entry.before_dequeue(target, flags, ClockSample::unread());
    ready.lemma_spared(left, target);
}

/// A task that has to leave its queue keeps its wait if it runs, and does not if it was queued; it
/// joins the other queue as one that comes from another processor, and is compared with the
/// running task there as one that has moved. It is placed there in between.
pub proof fn law_how_a_task_changes_queues<K: SchedClasses>(
    sched: SchedCoreView,
    pm: ProcessManagerView,
    target: TaskId,
    cpu: ProcessorId,
    dest: ProcessorId,
    sample: ClockSample,
    left: RqState,
    joined: RqState,
    end: RqState,
)
    requires
        pm.has(target),
        pm.task(target).sched_info.policy == SchedPolicy::CFS,
        move_queued_path::<K>(
            sched,
            pm,
            target,
            cpu,
            dest,
            quiet_guard(),
            sample,
            left,
            joined,
            end,
        ),
    ensures
        exists|ready: RqState| #[trigger]
            K::Fair::dequeue_rel(ready, target, DequeueFlag { bits: 0x08 }, left)
                && ready.pm.task(target).sched_info.on_rq == OnRq::Migrating,
        exists|arrival: RqState| #[trigger]
            arrival.activate::<K>(
                target,
                EnqueueFlag { bits: 0x48 },
                ClockSample::unread(),
                joined,
            ) && arrival.pm.task(target).sched_info.cpu == dest
                && arrival.rq == sched.rqs[dest.id as int].with_lock(true).clocked(sample),
        joined.check_preempt::<K>(target, WakeupFlags { bits: 0x20 }, end),
{
    let flags = DequeueFlag { bits: DequeueFlag::DEQUEUE_NOCLOCK };
    let entry = RqState {
        rq: sched.rq(cpu),
        pm: pm.with_task(target, pm.task(target).with_on_rq(OnRq::Migrating)),
    };
    let ready = entry.before_dequeue(target, flags, ClockSample::unread());
    ready.lemma_spared(left, target);
    assert(K::Fair::dequeue_rel(ready, target, DequeueFlag { bits: 0x08 }, left));
    let arrival = RqState {
        rq: sched.rq(dest).with_lock(true).clocked(sample),
        pm: left.pm.with_task(target, left.pm.task(target).placed_on(dest)).unlocked(
            quiet_guard(),
        ).irq_off().preempt_disabled(),
    };
    assert(arrival.activate::<K>(
        target,
        EnqueueFlag { bits: 0x48 },
        ClockSample::unread(),
        joined,
    ));
    assert(arrival.pm.task(target) == left.pm.task(target).placed_on(dest));
}

} // verus!
