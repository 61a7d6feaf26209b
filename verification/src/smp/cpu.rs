//! Processor identifiers and sets of processors.
use vstd::prelude::*;

verus! {

/// The number of processor slots that the kernel reserves.
pub const MAX_CPU_NUM: u32 = 128;

/// The number of bytes that a processor set takes up as a bit map.
pub const CPU_MASK_BYTES: usize = 16;

/// The number of a logical processor.
#[derive(Debug, Clone, Copy, PartialEq, Eq, Structural)]
pub struct ProcessorId {
    pub id: u32,
}

impl ProcessorId {
    /// The number that stands for no processor at all.
    pub const INVALID: u32 = 0xffff_ffff;

    pub open spec fn spec_new(id: u32) -> ProcessorId {
        ProcessorId { id }
    }

    #[verifier::when_used_as_spec(spec_new)]
    pub fn new(id: u32) -> (cpu: ProcessorId)
        ensures
            cpu == ProcessorId::new(id),
    {
        ProcessorId { id }
    }

    pub open spec fn spec_data(self) -> u32 {
        self.id
    }

    #[verifier::when_used_as_spec(spec_data)]
    pub fn data(self) -> (id: u32)
        ensures
            id == self.data(),
    {
        self.id
    }

    pub open spec fn spec_is_invalid(self) -> bool {
        self.id == ProcessorId::INVALID
    }

    /// Whether this is the number that stands for no processor.
    #[verifier::when_used_as_spec(spec_is_invalid)]
    pub fn is_invalid(self) -> (b: bool)
        ensures
            b == self.is_invalid(),
    {
        self.id == ProcessorId::INVALID
    }
}

/// A set of processors, one bit for each slot.
#[derive(Debug, Clone, Copy)]
pub struct CpuMask {
    pub bits: [bool; 128],
}

impl CpuMask {
    /// Whether the set holds the processor in slot `i`.
    pub open spec fn has(self, i: int) -> bool {
        0 <= i < MAX_CPU_NUM && self.bits@[i]
    }

    /// Whether `cpu` is the lowest member of the set.
    pub open spec fn is_first(self, cpu: ProcessorId) -> bool {
        self.has(cpu.id as int) && forall|j: int| 0 <= j < cpu.id ==> !#[trigger] self.has(j)
    }

    /// Whether the set has no member.
    pub open spec fn spec_is_empty(self) -> bool {
        forall|i: int| !#[trigger] self.has(i)
    }

    /// The set without members.
    pub fn new() -> (mask: CpuMask)
        ensures
            mask.spec_is_empty(),
    {
        CpuMask { bits: [false; 128] }
    }

    pub open spec fn spec_get(&self, cpu: ProcessorId) -> Option<bool> {
        if cpu.id < MAX_CPU_NUM {
            Some(self.has(cpu.id as int))
        } else {
            None
        }
    }

    /// Whether the set holds `cpu`, or `None` where there is no such slot.
    #[verifier::when_used_as_spec(spec_get)]
    pub fn get(&self, cpu: ProcessorId) -> (bit: Option<bool>)
        ensures
            bit == self.get(cpu),
    {
        if cpu.id < MAX_CPU_NUM {
            Some(self.bits[cpu.id as usize])
        } else {
            None
        }
    }

    /// Whether the set holds `cpu`; a slot that does not exist is in no set.
    pub fn contains(&self, cpu: ProcessorId) -> (b: bool)
        ensures
            b == self.has(cpu.id as int),
    {
        cpu.id < MAX_CPU_NUM && self.bits[cpu.id as usize]
    }

    /// The set with `cpu` in it or not; a slot that does not exist changes nothing.
    pub open spec fn with(self, cpu: ProcessorId, value: bool) -> CpuMask {
        if cpu.id < MAX_CPU_NUM {
            CpuMask { bits: vstd::array::spec_array_update(self.bits, cpu.id as int, value) }
        } else {
            self
        }
    }

    /// Puts `cpu` into the set or takes it out, and returns whether it was in
    /// the set before. Where there is no such slot, returns `None` and leaves
    /// the set as it was.
    pub fn set(&mut self, cpu: ProcessorId, value: bool) -> (prev: Option<bool>)
        ensures
            prev == old(self).get(cpu),
            *final(self) == old(self).with(cpu, value),
    {
        if cpu.id < MAX_CPU_NUM {
            let prev = self.bits[cpu.id as usize];
            self.bits[cpu.id as usize] = value;
            Some(prev)
        } else {
            None
        }
    }

    /// The lowest member of the set at or above slot `i`.
    pub open spec fn lowest_from(self, i: int) -> Option<ProcessorId>
        decreases MAX_CPU_NUM - i,
    {
        if i >= MAX_CPU_NUM {
            None
        } else if self.has(i) {
            Some(ProcessorId::new(i as u32))
        } else {
            self.lowest_from(i + 1)
        }
    }

    /// The lowest member of the set.
    pub open spec fn lowest(self) -> Option<ProcessorId> {
        self.lowest_from(0)
    }

    /// The lowest member of the set.
    pub fn first(&self) -> (cpu: Option<ProcessorId>)
        ensures
            cpu == self.lowest(),
            match cpu {
                Some(c) => self.is_first(c),
                None => self.spec_is_empty(),
            },
    {
        let mut i: u32 = 0;
        while i < MAX_CPU_NUM
            invariant
                i <= MAX_CPU_NUM,
                self.lowest() == self.lowest_from(i as int),
                forall|j: int| 0 <= j < i ==> !#[trigger] self.has(j),
            decreases MAX_CPU_NUM - i,
        {
            if self.bits[i as usize] {
                return Some(ProcessorId::new(i));
            }
            i = i + 1;
        }
        None
    }

    /// Whether the set has no member.
    pub fn is_empty(&self) -> (b: bool)
        ensures
            b == self.spec_is_empty(),
    {
        match self.first() {
            Some(c) => {
                assert(self.has(c.id as int));
                false
            },
            None => true,
        }
    }

    /// Whether `cpu` is the lowest processor that is in both sets.
    pub open spec fn is_first_and(self, other: CpuMask, cpu: ProcessorId) -> bool {
        &&& self.has(cpu.id as int)
        &&& other.has(cpu.id as int)
        &&& forall|j: int| 0 <= j < cpu.id ==> !(#[trigger] self.has(j) && other.has(j))
    }

    /// The lowest processor that is in both sets.
    pub fn first_and(&self, other: &CpuMask) -> (cpu: Option<ProcessorId>)
        ensures
            match cpu {
                Some(c) => self.is_first_and(*other, c),
                None => forall|j: int| !(#[trigger] self.has(j) && other.has(j)),
            },
    {
        let mut i: u32 = 0;
        while i < MAX_CPU_NUM
            invariant
                i <= MAX_CPU_NUM,
                forall|j: int| 0 <= j < i ==> !(#[trigger] self.has(j) && other.has(j)),
            decreases MAX_CPU_NUM - i,
        {
            if self.bits[i as usize] && other.bits[i as usize] {
                return Some(ProcessorId::new(i));
            }
            i = i + 1;
        }
        None
    }

    /// The number of members below slot `n`.
    pub open spec fn count_below(self, n: int) -> nat
        decreases n,
    {
        if n <= 0 {
            0
        } else {
            self.count_below(n - 1) + if self.has(n - 1) {
                1nat
            } else {
                0nat
            }
        }
    }

    /// The number of members.
    pub open spec fn spec_count(self) -> nat {
        self.count_below(MAX_CPU_NUM as int)
    }

    /// The number of members.
    pub fn count(&self) -> (n: u32)
        ensures
            n == self.spec_count(),
            n <= MAX_CPU_NUM,
    {
        let mut i: u32 = 0;
        let mut n: u32 = 0;
        while i < MAX_CPU_NUM
            invariant
                n <= i <= MAX_CPU_NUM,
                n == self.count_below(i as int),
            decreases MAX_CPU_NUM - i,
        {
            if self.bits[i as usize] {
                n = n + 1;
            }
            i = i + 1;
        }
        n
    }
}

/// What is known of the processors of the machine.
#[derive(Debug, Clone, Copy)]
pub struct SmpCpuManager {
    /// Whether the processors have been counted yet.
    pub initialized: bool,
    /// The processors that could ever be there.
    pub possible: CpuMask,
    /// The processors that are there.
    pub present: CpuMask,
    /// The processors that run tasks.
    pub online: CpuMask,
}

impl SmpCpuManager {
    pub open spec fn spec_is_online_cpu(&self, cpu: ProcessorId) -> bool {
        self.online.has(cpu.id as int)
    }

    /// Whether `cpu` runs tasks.
    #[verifier::when_used_as_spec(spec_is_online_cpu)]
    pub fn is_online_cpu(&self, cpu: ProcessorId) -> (b: bool)
        ensures
            b == self.is_online_cpu(cpu),
    {
        self.online.contains(cpu)
    }

    /// The number of processors that are there.
    pub fn present_cpus_count(&self) -> (n: u32)
        ensures
            n == self.present.spec_count(),
            n <= MAX_CPU_NUM,
    {
        self.present.count()
    }
}

/// After a processor was put into a set or taken out, asking for it tells which,
/// and every other member stays.
pub proof fn law_set_then_get(mask: CpuMask, cpu: ProcessorId, value: bool)
    ensures
        cpu.id < MAX_CPU_NUM ==> mask.with(cpu, value).get(cpu) == Some(value),
        forall|other: ProcessorId| other != cpu ==> mask.with(cpu, value).get(other) == mask.get(
            other,
        ),
{
}

/// The lowest member of a set is a member, and nothing below it is; a set has none only if it is
/// empty. Members are counted one by one.
pub proof fn law_members_of_a_set(mask: CpuMask, n: int)
    requires
        0 <= n < 128,
    ensures
        mask.lowest() matches Some(c) ==> c.id < 128 && mask.bits@[c.id as int] && (n < c.id
            ==> !mask.bits@[n]),
        mask.lowest() is None ==> !mask.bits@[n],
        mask.count_below(0) == 0,
        mask.count_below(n + 1) == mask.count_below(n) + if mask.bits@[n] {
            1int
        } else {
            0int
        },
        mask.spec_count() == mask.count_below(128),
        mask.has(n) == mask.bits@[n],
{
    lemma_lowest_from(mask, 0, n);
}

/// The same of the lowest member at or above a slot.
proof fn lemma_lowest_from(mask: CpuMask, i: int, n: int)
    requires
        0 <= i,
    ensures
        mask.lowest_from(i) matches Some(c) ==> mask.has(c.id as int) && i <= c.id && (i <= n
            < c.id ==> !mask.has(n)),
        mask.lowest_from(i) is None && i <= n ==> !mask.has(n),
    decreases MAX_CPU_NUM - i,
{
    if i < MAX_CPU_NUM && !mask.has(i) {
        lemma_lowest_from(mask, i + 1, n);
    }
}

/// Asking for a processor tells its bit, and nothing where there is no such slot. A processor is
/// the first of a set, or of two, if it is a member and nothing below it is. One runs tasks if it
/// is among those that do, and one number stands for none.
pub proof fn law_what_a_set_tells(mask: CpuMask, other: CpuMask, cpu: ProcessorId, n: int)
    requires
        0 <= n < 128,
    ensures
        cpu.id < 128 ==> mask.get(cpu) == Some(mask.bits@[cpu.id as int]),
        cpu.id >= 128 ==> mask.get(cpu) is None,
        mask.is_first(cpu) ==> cpu.id < 128 && mask.bits@[cpu.id as int] && (n < cpu.id
            ==> !mask.bits@[n]),
        mask.is_first_and(other, cpu) ==> cpu.id < 128 && mask.bits@[cpu.id as int]
            && other.bits@[cpu.id as int] && (n < cpu.id ==> !(mask.bits@[n] && other.bits@[n])),
        mask.spec_is_empty() ==> !mask.bits@[n],
        cpu.is_invalid() <==> cpu.id == 0xffff_ffff,
        forall|smp: SmpCpuManager| #[trigger]
            smp.is_online_cpu(cpu) <==> cpu.id < 128 && smp.online.bits@[cpu.id as int],
{
    assert(mask.has(n) == mask.bits@[n]);
    assert(other.has(n) == other.bits@[n]);
}

} // verus!
