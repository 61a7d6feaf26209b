//! The flag words that steer the scheduler.
use vstd::prelude::*;

verus! {

/// What to mind when a task joins a run queue.
#[derive(Debug, Clone, Copy, PartialEq, Eq, Structural)]
pub struct EnqueueFlag {
    pub bits: u8,
}

impl EnqueueFlag {
    pub const ENQUEUE_WAKEUP: u8 = 0x01;

    pub const ENQUEUE_RESTORE: u8 = 0x02;

    pub const ENQUEUE_MOVE: u8 = 0x04;

    /// The clock of the run queue is up to date already.
    pub const ENQUEUE_NOCLOCK: u8 = 0x08;

    /// The task comes from another processor.
    pub const ENQUEUE_MIGRATED: u8 = 0x40;

    pub const ENQUEUE_INITIAL: u8 = 0x80;

    pub open spec fn spec_contains(self, mask: u8) -> bool {
        self.bits & mask == mask
    }

    /// Whether every bit of `mask` is set.
    #[verifier::when_used_as_spec(spec_contains)]
    pub fn contains(self, mask: u8) -> (b: bool)
        ensures
            b == self.contains(mask),
    {
        self.bits & mask == mask
    }

    pub open spec fn spec_with(self, mask: u8) -> EnqueueFlag {
        EnqueueFlag { bits: self.bits | mask }
    }

    /// The flags with the bits of `mask` set too.
    #[verifier::when_used_as_spec(spec_with)]
    pub fn with(self, mask: u8) -> (f: EnqueueFlag)
        ensures
            f == self.with(mask),
    {
        EnqueueFlag { bits: self.bits | mask }
    }
}

/// What to mind when a task leaves a run queue.
#[derive(Debug, Clone, Copy, PartialEq, Eq, Structural)]
pub struct DequeueFlag {
    pub bits: u8,
}

impl DequeueFlag {
    /// The task goes to sleep.
    pub const DEQUEUE_SLEEP: u8 = 0x01;

    /// Counterpart of `ENQUEUE_RESTORE`.
    pub const DEQUEUE_SAVE: u8 = 0x02;

    /// Counterpart of `ENQUEUE_MOVE`.
    pub const DEQUEUE_MOVE: u8 = 0x04;

    /// Counterpart of `ENQUEUE_NOCLOCK`.
    pub const DEQUEUE_NOCLOCK: u8 = 0x08;

    /// The task is stopped by job control, which is neither sleep nor
    /// migration.
    pub const DEQUEUE_STOPPED: u8 = 0x10;

    pub open spec fn spec_contains(self, mask: u8) -> bool {
        self.bits & mask == mask
    }

    /// Whether every bit of `mask` is set.
    #[verifier::when_used_as_spec(spec_contains)]
    pub fn contains(self, mask: u8) -> (b: bool)
        ensures
            b == self.contains(mask),
    {
        self.bits & mask == mask
    }

    pub open spec fn spec_intersects(self, mask: u8) -> bool {
        self.bits & mask != 0
    }

    /// Whether some bit of `mask` is set.
    #[verifier::when_used_as_spec(spec_intersects)]
    pub fn intersects(self, mask: u8) -> (b: bool)
        ensures
            b == self.intersects(mask),
    {
        self.bits & mask != 0
    }
}

/// What kind of wake-up a task gets.
#[derive(Debug, Clone, Copy, PartialEq, Eq, Structural)]
pub struct WakeupFlags {
    pub bits: u8,
}

impl WakeupFlags {
    /// After exec.
    pub const WF_EXEC: u8 = 0x02;

    /// After fork.
    pub const WF_FORK: u8 = 0x04;

    /// An ordinary wake-up.
    pub const WF_TTWU: u8 = 0x08;

    /// The waker goes to sleep afterwards.
    pub const WF_SYNC: u8 = 0x10;

    /// The task changed processors.
    pub const WF_MIGRATED: u8 = 0x20;

    /// The task should rather go to the processor of its waker.
    pub const WF_CURRENT_CPU: u8 = 0x40;
}

/// Why the scheduler is entered.
#[derive(Debug, Clone, Copy, PartialEq, Eq, Structural)]
pub struct SchedMode {
    pub bits: u8,
}

impl SchedMode {
    /// The task gives up the processor and has to be woken by hand.
    pub const SM_NONE: u8 = 0x0;

    /// The task is preempted and stays on its run queue.
    pub const SM_PREEMPT: u8 = 0x1;

    pub const SM_RTLOCK_WAIT: u8 = 0x2;

    pub const SM_MASK_PREEMPT: u8 = 0x1;

    pub open spec fn spec_contains(self, mask: u8) -> bool {
        self.bits & mask == mask
    }

    /// Whether every bit of `mask` is set.
    #[verifier::when_used_as_spec(spec_contains)]
    pub fn contains(self, mask: u8) -> (b: bool)
        ensures
            b == self.contains(mask),
    {
        self.bits & mask == mask
    }
}

/// Whether the clock of a run queue may be brought up to date.
#[derive(Debug, Clone, Copy, PartialEq, Eq, Structural)]
pub struct ClockUpdataFlag {
    pub bits: u8,
}

impl ClockUpdataFlag {
    /// The next pass of the scheduler shall skip its clock update.
    pub const RQCF_REQ_SKIP: u8 = 0x01;

    /// Clock updates are being skipped.
    pub const RQCF_ACT_SKIP: u8 = 0x02;

    /// The clock was updated in this pass.
    pub const RQCF_UPDATE: u8 = 0x04;

    /// Every bit that has a meaning.
    pub const ALL: u8 = 0x07;

    pub open spec fn spec_contains(self, mask: u8) -> bool {
        self.bits & mask == mask
    }

    /// Whether every bit of `mask` is set.
    #[verifier::when_used_as_spec(spec_contains)]
    pub fn contains(self, mask: u8) -> (b: bool)
        ensures
            b == self.contains(mask),
    {
        self.bits & mask == mask
    }

    pub open spec fn spec_with(self, mask: u8) -> ClockUpdataFlag {
        ClockUpdataFlag { bits: self.bits | mask }
    }

    /// The flags with the bits of `mask` set too.
    #[verifier::when_used_as_spec(spec_with)]
    pub fn with(self, mask: u8) -> (f: ClockUpdataFlag)
        ensures
            f == self.with(mask),
    {
        ClockUpdataFlag { bits: self.bits | mask }
    }

    pub open spec fn spec_promoted(self) -> ClockUpdataFlag {
        ClockUpdataFlag { bits: (self.bits << 1u8) & ClockUpdataFlag::ALL }
    }

    /// Every flag moved up by one place, so that a request to skip becomes
    /// effective; what falls off the end is lost.
    #[verifier::when_used_as_spec(spec_promoted)]
    pub fn promoted(self) -> (f: ClockUpdataFlag)
        ensures
            f == self.promoted(),
    {
        ClockUpdataFlag { bits: (self.bits << 1u8) & ClockUpdataFlag::ALL }
    }
}

/// A request to skip the clock update takes effect in the next pass of the
/// scheduler, and only then.
pub proof fn law_skip_request_takes_effect_once(f: ClockUpdataFlag)
    ensures
        f.promoted().contains(ClockUpdataFlag::RQCF_ACT_SKIP) <==> f.contains(
            ClockUpdataFlag::RQCF_REQ_SKIP,
        ),
        !f.promoted().contains(ClockUpdataFlag::RQCF_REQ_SKIP),
{
    let b = f.bits;
    assert((((b << 1u8) & 0x07u8) & 0x02u8 == 0x02u8 <==> b & 0x01u8 == 0x01u8) && ((b << 1u8)
        & 0x07u8) & 0x01u8 != 0x01u8) by (bit_vector);
}

/// What the flag words that the scheduler itself uses hold.
pub proof fn lemma_flag_words()
    ensures
        0u8 & 0x01u8 == 0u8,
        0x01u8 & 0x01u8 == 0x01u8,
        0x08u8 & 0x08u8 == 0x08u8,
        0x09u8 & 0x08u8 == 0x08u8,
        0x0au8 & 0x08u8 == 0x08u8,
        0x0cu8 & 0x08u8 == 0x08u8,
        0x48u8 & 0x08u8 == 0x08u8,
        (0x01u8 | 0x08u8) & 0x08u8 == 0x08u8,
        (0x08u8 | 0x40u8) & 0x08u8 == 0x08u8,
        (0x48u8 | 0x40u8) & 0x08u8 == 0x08u8,
        0x09u8 & (0x01u8 | 0x10u8) != 0u8,
        0x0cu8 & (0x01u8 | 0x10u8) == 0u8,
        0x08u8 & 0x02u8 == 0u8,
        0x09u8 & 0x02u8 == 0u8,
        0x0au8 & 0x02u8 == 0x02u8,
        0x0cu8 & 0x02u8 == 0u8,
        0x48u8 & 0x02u8 == 0u8,
        (0x48u8 | 0x40u8) & 0x02u8 == 0u8,
{
    assert(0u8 & 0x01u8 == 0u8 && 0x01u8 & 0x01u8 == 0x01u8 && 0x08u8 & 0x08u8 == 0x08u8 && 0x09u8
        & 0x08u8 == 0x08u8 && 0x0au8 & 0x08u8 == 0x08u8 && 0x0cu8 & 0x08u8 == 0x08u8 && 0x48u8
        & 0x08u8 == 0x08u8 && (0x01u8 | 0x08u8) & 0x08u8 == 0x08u8 && (0x08u8 | 0x40u8) & 0x08u8
        == 0x08u8 && (0x48u8 | 0x40u8) & 0x08u8 == 0x08u8 && 0x09u8 & (0x01u8 | 0x10u8) != 0u8
        && 0x0cu8 & (0x01u8 | 0x10u8) == 0u8 && 0x08u8 & 0x02u8 == 0u8 && 0x09u8 & 0x02u8 == 0u8
        && 0x0au8 & 0x02u8 == 0x02u8 && 0x0cu8 & 0x02u8 == 0u8 && 0x48u8 & 0x02u8 == 0u8 && (0x48u8
        | 0x40u8) & 0x02u8 == 0u8) by (bit_vector);
}

/// Optional behaviour of the scheduler.
#[derive(Debug, Clone, Copy, PartialEq, Eq, Structural)]
pub struct SchedFeature {
    pub bits: u32,
}

impl SchedFeature {
    /// Sleepers get half of the service that they missed.
    pub const GENTLE_FAIR_SLEEPERS: u32 = 0x0001;

    /// New tasks start out one slice behind.
    pub const START_DEBIT: u32 = 0x0002;

    /// Prefer the task that was woken last.
    pub const NEXT_BUDDY: u32 = 0x0004;

    /// Prefer the task that ran last.
    pub const LAST_BUDDY: u32 = 0x0008;

    /// Take buddies to be hot in the cache.
    pub const CACHE_HOT_BUDDY: u32 = 0x0010;

    /// A woken task may preempt the running one.
    pub const WAKEUP_PREEMPTION: u32 = 0x0020;

    /// Time spent outside tasks lowers the capacity of a processor.
    pub const NONTASK_CAPACITY: u32 = 0x0040;

    /// Wake-ups of other processors go through their wake queues.
    pub const TTWU_QUEUE: u32 = 0x0080;

    /// Bound the scan of the last-level cache domain on wake-up.
    pub const SIS_UTIL: u32 = 0x0100;

    /// Pull real-time tasks by interrupt.
    pub const RT_PUSH_IPI: u32 = 0x0200;

    /// Estimate the utilisation of a processor.
    pub const UTIL_EST: u32 = 0x0400;

    pub const UTIL_EST_FASTUP: u32 = 0x0800;

    /// The alternative scheduling period.
    pub const ALT_PERIOD: u32 = 0x1000;

    /// The base time slice.
    pub const BASE_SLICE: u32 = 0x2000;

    pub open spec fn spec_contains(self, mask: u32) -> bool {
        self.bits & mask == mask
    }

    /// Whether every bit of `mask` is set.
    #[verifier::when_used_as_spec(spec_contains)]
    pub fn contains(self, mask: u32) -> (b: bool)
        ensures
            b == self.contains(mask),
    {
        self.bits & mask == mask
    }

    /// The features that are switched on: all of them but `NEXT_BUDDY`.
    pub fn enabled() -> (f: SchedFeature)
        ensures
            f.bits == 0x3ffb,
    {
        SchedFeature { bits: 0x3ffb }
    }
}

} // verus!
