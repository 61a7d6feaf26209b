//! Scheduling policies and where a task stands with respect to a run queue.
use vstd::prelude::*;

verus! {

/// The scheduling policy of a task, in the order in which the classes take
/// precedence over each other.
#[derive(Debug, Clone, Copy, PartialEq, Eq, PartialOrd, Ord, Structural)]
pub enum SchedPolicy {
    /// Real time.
    RT,
    /// First in, first out.
    FIFO,
    /// Completely fair.
    CFS,
    /// The idle task of a processor.
    IDLE,
}

impl SchedPolicy {
    pub open spec fn spec_to_u8(self) -> u8 {
        match self {
            SchedPolicy::RT => 0,
            SchedPolicy::FIFO => 1,
            SchedPolicy::CFS => 2,
            SchedPolicy::IDLE => 3,
        }
    }

    /// The number of the policy; the lower it is, the more urgent is its class.
    #[verifier::when_used_as_spec(spec_to_u8)]
    pub fn to_u8(self) -> (n: u8)
        ensures
            n == self.to_u8(),
            n <= 3,
    {
        match self {
            SchedPolicy::RT => 0,
            SchedPolicy::FIFO => 1,
            SchedPolicy::CFS => 2,
            SchedPolicy::IDLE => 3,
        }
    }

    /// The policy with the number `val`.
    pub fn from_u8(val: u8) -> (policy: SchedPolicy)
        requires
            val <= 3,
        ensures
            policy.to_u8() == val,
    {
        match val {
            0 => SchedPolicy::RT,
            1 => SchedPolicy::FIFO,
            2 => SchedPolicy::CFS,
            _ => SchedPolicy::IDLE,
        }
    }

    pub open spec fn spec_outranks(self, other: SchedPolicy) -> bool {
        self.to_u8() < other.to_u8()
    }

    /// Whether a task of this policy goes before every task of `other`.
    #[verifier::when_used_as_spec(spec_outranks)]
    pub fn outranks(self, other: SchedPolicy) -> (b: bool)
        ensures
            b == self.outranks(other),
    {
        self.to_u8() < other.to_u8()
    }
}

/// The number of a policy tells it apart from the others.
pub proof fn law_policy_number_is_unique(a: SchedPolicy, b: SchedPolicy)
    ensures
        a.to_u8() == b.to_u8() <==> a == b,
{
}

/// Of two different policies exactly one outranks the other.
pub proof fn law_policies_are_ranked(a: SchedPolicy, b: SchedPolicy)
    ensures
        a != b ==> (a.outranks(b) <==> !b.outranks(a)),
        !a.outranks(a),
{
}

/// Where a task stands with respect to a run queue.
#[derive(Debug, Clone, Copy, PartialEq, Eq, Structural)]
pub enum OnRq {
    /// On no run queue.
    Unqueued,
    /// On a run queue.
    Queued,
    /// On the way from one run queue to another.
    Migrating,
}

} // verus!
