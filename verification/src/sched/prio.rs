//! Priorities and nice values.
use crate::sched::policy::SchedPolicy;
use vstd::prelude::*;

verus! {

/// The least urgent nice value.
pub const MAX_NICE: i32 = 19;

/// The most urgent nice value.
pub const MIN_NICE: i32 = -20;

/// The number of nice values.
pub const NICE_WIDTH: i32 = MAX_NICE - MIN_NICE + 1;

/// The priorities below this one are real-time priorities.
pub const MAX_RT_PRIO: i32 = 100;

/// One more than the least urgent priority.
pub const MAX_PRIO: i32 = MAX_RT_PRIO + NICE_WIDTH;

/// The priority of nice value 0, in the middle of the priorities for nice values.
pub const DEFAULT_PRIO: i32 = 120;

/// The priorities below this one are deadline priorities.
pub const MAX_DL_PRIO: i32 = 0;

/// The weight in the fair class of each nice value, from the most urgent to
/// the least urgent one.
pub const SCHED_PRIO_TO_WEIGHT: [u64; 40] = [
    88761, 71755, 56483, 46273, 36291, 29154, 23254, 18705, 14949, 11916, 9548, 7620, 6100, 4904,
    3906, 3121, 2501, 1991, 1586, 1277, 1024, 820, 655, 526, 423, 335, 272, 215, 172, 137, 110, 87,
    70, 56, 45, 36, 29, 23, 18, 15,
];

/// Conversions between priorities and nice values.
pub struct PrioUtil;

impl PrioUtil {
    /// The priority of a nice value.
    pub open spec fn prio_of_nice(nice: int) -> int {
        nice + DEFAULT_PRIO
    }

    /// The nice value of a priority.
    pub open spec fn nice_of_prio(prio: int) -> int {
        prio - DEFAULT_PRIO
    }

    /// The priority of a nice value.
    pub fn nice_to_prio(nice: i32) -> (prio: i32)
        requires
            PrioUtil::prio_of_nice(nice as int) <= i32::MAX,
        ensures
            prio == PrioUtil::prio_of_nice(nice as int),
    {
        nice + DEFAULT_PRIO
    }

    /// The nice value of a priority.
    pub fn prio_to_nice(prio: i32) -> (nice: i32)
        requires
            PrioUtil::nice_of_prio(prio as int) >= i32::MIN,
        ensures
            nice == PrioUtil::nice_of_prio(prio as int),
    {
        prio - DEFAULT_PRIO
    }

    pub open spec fn spec_dl_prio(prio: i32) -> bool {
        prio < MAX_DL_PRIO
    }

    /// Whether this is the priority of a deadline task.
    #[verifier::when_used_as_spec(spec_dl_prio)]
    pub fn dl_prio(prio: i32) -> (b: bool)
        ensures
            b == PrioUtil::dl_prio(prio),
    {
        prio < MAX_DL_PRIO
    }

    pub open spec fn spec_rt_prio(prio: i32) -> bool {
        prio < MAX_RT_PRIO
    }

    /// Whether this is the priority of a real-time task, or of one that is more
    /// urgent still.
    #[verifier::when_used_as_spec(spec_rt_prio)]
    pub fn rt_prio(prio: i32) -> (b: bool)
        ensures
            b == PrioUtil::rt_prio(prio),
    {
        prio < MAX_RT_PRIO
    }

    /// The priority that a task has by its policy alone.
    pub open spec fn spec_normal_prio_for(
        policy: SchedPolicy,
        rt_prio_val: i32,
        nice: i32,
    ) -> int {
        match policy {
            SchedPolicy::CFS | SchedPolicy::IDLE => PrioUtil::prio_of_nice(nice as int),
            SchedPolicy::FIFO | SchedPolicy::RT => MAX_RT_PRIO - 1 - rt_prio_val,
        }
    }

    /// The priority that a task has by its policy alone, without what it
    /// inherits from tasks that wait for it.
    pub fn normal_prio_for(policy: SchedPolicy, rt_prio_val: i32, nice: i32) -> (prio: i32)
        requires
            i32::MIN <= PrioUtil::spec_normal_prio_for(policy, rt_prio_val, nice) <= i32::MAX,
        ensures
            prio == PrioUtil::spec_normal_prio_for(policy, rt_prio_val, nice),
    {
        match policy {
            SchedPolicy::CFS | SchedPolicy::IDLE => nice + DEFAULT_PRIO,
            SchedPolicy::FIFO | SchedPolicy::RT => MAX_RT_PRIO - 1 - rt_prio_val,
        }
    }
}

/// Turning a nice value into a priority and back gives the nice value again,
/// and the nice values fill exactly the priorities from `MAX_RT_PRIO` up to
/// `MAX_PRIO`.
pub proof fn law_nice_round_trip(nice: int)
    ensures
        PrioUtil::nice_of_prio(PrioUtil::prio_of_nice(nice)) == nice,
        MIN_NICE <= nice <= MAX_NICE <==> MAX_RT_PRIO <= PrioUtil::prio_of_nice(nice) < MAX_PRIO,
{
}

/// A task of the fair class with a valid nice value never gets a real-time
/// priority; a real-time task with a priority from 1 to 99 always gets one, and
/// never a deadline priority. The higher the real-time priority, the lower the
/// number.
pub proof fn law_policy_decides_the_priority_range(policy: SchedPolicy, rt: i32, nice: i32)
    requires
        MIN_NICE <= nice <= MAX_NICE,
        1 <= rt < MAX_RT_PRIO,
    ensures
        ({
            let prio = PrioUtil::spec_normal_prio_for(policy, rt, nice) as i32;
            &&& PrioUtil::rt_prio(prio) <==> (policy == SchedPolicy::FIFO || policy
                == SchedPolicy::RT)
            &&& !PrioUtil::dl_prio(prio)
        }),
        forall|rt2: i32|
            rt < rt2 < MAX_RT_PRIO && (policy == SchedPolicy::FIFO || policy == SchedPolicy::RT)
                ==> #[trigger] PrioUtil::spec_normal_prio_for(policy, rt2, nice)
                < PrioUtil::spec_normal_prio_for(policy, rt, nice),
{
}

} // verus!
