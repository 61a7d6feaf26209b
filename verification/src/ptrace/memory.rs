//! Words in the memory of a task, as its tracer reads and writes them.
use crate::error::SystemError;
use crate::mm::access::{BytePlace, Memory, MemoryView};
use crate::mm::fault::PageFault;
use crate::mm::transfer::{AccessStep, UserAccess};
use crate::process::pcb::ProcessControlBlock;
use vstd::prelude::*;

verus! {

/// The number of bytes in a word.
pub const WORD_SIZE: usize = 8;

/// The bytes of a word in memory, the least significant one first.
pub open spec fn word_bytes(word: u64) -> Seq<u8> {
    seq![
        (word % 0x100) as u8,
        (word / 0x100 % 0x100) as u8,
        (word / 0x1_0000 % 0x100) as u8,
        (word / 0x100_0000 % 0x100) as u8,
        (word / 0x1_0000_0000 % 0x100) as u8,
        (word / 0x100_0000_0000 % 0x100) as u8,
        (word / 0x1_0000_0000_0000 % 0x100) as u8,
        (word / 0x100_0000_0000_0000) as u8,
    ]
}

/// The word that bytes in memory make.
pub open spec fn word_of(bytes: Seq<u8>) -> int {
    bytes[0] + 0x100 * bytes[1] + 0x1_0000 * bytes[2] + 0x100_0000 * bytes[3] + 0x1_0000_0000
        * bytes[4] + 0x100_0000_0000 * bytes[5] + 0x1_0000_0000_0000 * bytes[6]
        + 0x100_0000_0000_0000 * bytes[7]
}

/// Takes a word apart into its bytes.
fn bytes_of(word: u64) -> (bytes: Vec<u8>)
    ensures
        bytes@ == word_bytes(word),
{
    let mut bytes: Vec<u8> = Vec::new();
    bytes.push((word % 0x100) as u8);
    bytes.push((word / 0x100 % 0x100) as u8);
    bytes.push((word / 0x1_0000 % 0x100) as u8);
    bytes.push((word / 0x100_0000 % 0x100) as u8);
    bytes.push((word / 0x1_0000_0000 % 0x100) as u8);
    bytes.push((word / 0x100_0000_0000 % 0x100) as u8);
    bytes.push((word / 0x1_0000_0000_0000 % 0x100) as u8);
    bytes.push((word / 0x100_0000_0000_0000) as u8);
    assert(bytes@ =~= word_bytes(word));
    bytes
}

/// Puts a word together from its bytes.
fn from_bytes(bytes: &Vec<u8>) -> (word: u64)
    requires
        bytes@.len() == WORD_SIZE,
    ensures
        word == word_of(bytes@),
{
    let low: u64 = bytes[0] as u64 + 0x100 * (bytes[1] as u64) + 0x1_0000 * (bytes[2] as u64)
        + 0x100_0000 * (bytes[3] as u64);
    let high: u64 = bytes[4] as u64 + 0x100 * (bytes[5] as u64) + 0x1_0000 * (bytes[6] as u64)
        + 0x100_0000 * (bytes[7] as u64);
    low + 0x1_0000_0000 * high
}

/// How far the reading of a word is.
#[derive(Debug)]
pub enum PeekStep {
    Done(Result<u64, SystemError>),
    /// A page fault has to be taken. If it fails, so does the reading, and otherwise
    /// `ptrace_peek_resume` goes on.
    Fault { access: UserAccess, fault: PageFault },
}

/// How far the writing of a word is.
#[derive(Debug)]
pub enum PokeStep {
    Done(Result<(), SystemError>),
    /// A page fault has to be taken. If it fails, so does the writing, and otherwise
    /// `ptrace_poke_resume` goes on.
    Fault { access: UserAccess, fault: PageFault },
}

/// Whether a word lies below the end of the user's part of an address space.
pub open spec fn is_user_word(addr: usize, user_end: usize) -> bool {
    addr + (WORD_SIZE - 1) < user_end
}

fn lies_in_user_part(addr: usize, user_end: usize) -> (b: bool)
    ensures
        b == is_user_word(addr, user_end),
{
    match addr.checked_add(WORD_SIZE - 1) {
        Some(last) => last < user_end,
        None => false,
    }
}

/// Whether the reading of a word is in this step, when it has gone on from the byte at place
/// `from`.
pub open spec fn peek_is(
    step: PeekStep,
    mm: MemoryView,
    addr: usize,
    buf: Seq<u8>,
    vm: Option<usize>,
    retry: Option<usize>,
    from: int,
) -> bool {
    let n = crate::mm::transfer::stop_at(
        mm,
        addr,
        false,
        vm,
        retry,
        from,
        from,
        WORD_SIZE as int,
    );
    let read = crate::mm::transfer::peeked(mm, addr, buf, vm, retry, from, n);
    if n == WORD_SIZE {
        step matches PeekStep::Done(Ok(word)) && word == word_of(read)
    } else {
        match crate::mm::transfer::place_of(mm, addr, false, vm, retry, from, n) {
            BytePlace::At(_) => false,
            BytePlace::Fail(e) => step matches PeekStep::Done(Err(err)) && err == e,
            BytePlace::Fault(f) => step matches PeekStep::Fault { access, fault } && fault == f
                && access.addr == addr && access.copied == n && access.buf@ == read,
        }
    }
}

/// Whether the writing of a word is in this step, when it has gone on from the byte at place
/// `from`, and whether the memory is then `after`.
pub open spec fn poke_is(
    step: PokeStep,
    mm: MemoryView,
    addr: usize,
    buf: Seq<u8>,
    vm: Option<usize>,
    retry: Option<usize>,
    from: int,
    after: MemoryView,
) -> bool {
    let n = crate::mm::transfer::stop_at(mm, addr, true, vm, retry, from, from, WORD_SIZE as int);
    &&& after == crate::mm::transfer::poked(mm, addr, buf, vm, retry, from, n)
    &&& if n == WORD_SIZE {
        step matches PokeStep::Done(Ok(()))
    } else {
        match crate::mm::transfer::place_of(mm, addr, true, vm, retry, from, n) {
            BytePlace::At(_) => false,
            BytePlace::Fail(e) => step matches PokeStep::Done(Err(err)) && err == e,
            BytePlace::Fault(f) => step matches PokeStep::Fault { access, fault } && fault == f
                && access.addr == addr && access.copied == n && access.buf@ == buf,
        }
    }
}

impl ProcessControlBlock {
    /// Goes on with the reading of a word.
    fn peek_on(&self, mm: &Memory, access: UserAccess, retry: Option<usize>) -> (step: PeekStep)
        requires
            mm@.wf(),
            mm@.has_vm(self.user_vm),
            mm@.has_vm(retry),
            access.wf(),
            access.buf@.len() == WORD_SIZE,
        ensures
            peek_is(
                step,
                mm@,
                access.addr,
                access.buf@,
                self.user_vm,
                retry,
                access.copied as int,
            ),
    {
        let mut access = access;
        match access.read_on(mm, self.user_vm, retry) {
            AccessStep::Finished => PeekStep::Done(Ok(from_bytes(&access.buf))),
            AccessStep::Stopped(e) => PeekStep::Done(Err(e)),
            AccessStep::Fault(fault) => PeekStep::Fault { access, fault },
        }
    }

    /// Goes on with the writing of a word.
    fn poke_on(&self, mm: &mut Memory, access: UserAccess, retry: Option<usize>) -> (step: PokeStep)
        requires
            old(mm)@.wf(),
            old(mm)@.has_vm(self.user_vm),
            old(mm)@.has_vm(retry),
            access.wf(),
            access.buf@.len() == WORD_SIZE,
        ensures
            poke_is(
                step,
                old(mm)@,
                access.addr,
                access.buf@,
                self.user_vm,
                retry,
                access.copied as int,
                final(mm)@,
            ),
            final(mm)@.wf(),
    {
        let mut access = access;
        match access.write_on(mm, self.user_vm, retry) {
            AccessStep::Finished => PokeStep::Done(Ok(())),
            AccessStep::Stopped(e) => PokeStep::Done(Err(e)),
            AccessStep::Fault(fault) => PokeStep::Fault { access, fault },
        }
    }

    /// Reads a word of the memory of the task. The user's part of an address space ends at
    /// `user_end`.
    pub fn ptrace_peek_data(&self, mm: &Memory, user_end: usize, addr: usize) -> (step: PeekStep)
        requires
            mm@.wf(),
            mm@.has_vm(self.user_vm),
        ensures
            if !is_user_word(addr, user_end) {
                step matches PeekStep::Done(Err(e)) && e == SystemError::EIO
            } else {
                peek_is(
                    step,
                    mm@,
                    addr,
                    seq![0u8, 0u8, 0u8, 0u8, 0u8, 0u8, 0u8, 0u8],
                    self.user_vm,
                    None,
                    0,
                )
            },
    {
        if !lies_in_user_part(addr, user_end) {
            return PeekStep::Done(Err(SystemError::EIO));
        }
        let buf: Vec<u8> = bytes_of(0);
        assert(buf@ =~= seq![0u8, 0u8, 0u8, 0u8, 0u8, 0u8, 0u8, 0u8]);
        self.peek_on(mm, UserAccess { addr, buf, copied: 0 }, None)
    }

    /// Goes on with the reading of a word when a page fault in the address space `vm` has been
    /// handled.
    pub fn ptrace_peek_resume(&self, mm: &Memory, access: UserAccess, vm: usize) -> (step: PeekStep)
        requires
            mm@.wf(),
            mm@.has_vm(self.user_vm),
            mm@.has_vm(Some(vm)),
            access.wf(),
            access.buf@.len() == WORD_SIZE,
        ensures
            peek_is(
                step,
                mm@,
                access.addr,
                access.buf@,
                self.user_vm,
                Some(vm),
                access.copied as int,
            ),
    {
        self.peek_on(mm, access, Some(vm))
    }

    /// Writes a word of the memory of the task. The user's part of an address space ends at
    /// `user_end`.
    pub fn ptrace_poke_data(&self, mm: &mut Memory, user_end: usize, addr: usize, value: u64) -> (
        step: PokeStep)
        requires
            old(mm)@.wf(),
            old(mm)@.has_vm(self.user_vm),
        ensures
            if !is_user_word(addr, user_end) {
                (step matches PokeStep::Done(Err(e)) && e == SystemError::EIO) && final(mm)@ == old(
                    mm,
                )@
            } else {
                poke_is(
                    step,
                    old(mm)@,
                    addr,
                    word_bytes(value),
                    self.user_vm,
                    None,
                    0,
                    final(mm)@,
                )
            },
            final(mm)@.wf(),
    {
        if !lies_in_user_part(addr, user_end) {
            return PokeStep::Done(Err(SystemError::EIO));
        }
        let buf: Vec<u8> = bytes_of(value);
        self.poke_on(mm, UserAccess { addr, buf, copied: 0 }, None)
    }

    /// Goes on with the writing of a word when a page fault in the address space `vm` has been
    /// handled.
    pub fn ptrace_poke_resume(&self, mm: &mut Memory, access: UserAccess, vm: usize) -> (step:
        PokeStep)
        requires
            old(mm)@.wf(),
            old(mm)@.has_vm(self.user_vm),
            old(mm)@.has_vm(Some(vm)),
            access.wf(),
            access.buf@.len() == WORD_SIZE,
        ensures
            poke_is(
                step,
                old(mm)@,
                access.addr,
                access.buf@,
                self.user_vm,
                Some(vm),
                access.copied as int,
                final(mm)@,
            ),
            final(mm)@.wf(),
    {
        self.poke_on(mm, access, Some(vm))
    }
}

/// A number is its last digit, and the rest of it.
proof fn lemma_digit(w: int, d: int)
    requires
        0 <= w,
        0 < d,
    ensures
        w / d == 0x100 * (w / (d * 0x100)) + w / d % 0x100,
{
    vstd::arithmetic::div_mod::lemma_fundamental_div_mod(w / d, 0x100);
    vstd::arithmetic::div_mod::lemma_div_denominator(w, d, 0x100);
}

/// A word is the same when it has been taken apart into bytes and put together again.
pub proof fn law_word_is_made_of_its_bytes(word: u64)
    ensures
        word_of(word_bytes(word)) == word,
{
    let w = word as int;
    lemma_digit(w, 1);
    lemma_digit(w, 0x100);
    lemma_digit(w, 0x1_0000);
    lemma_digit(w, 0x100_0000);
    lemma_digit(w, 0x1_0000_0000);
    lemma_digit(w, 0x100_0000_0000);
    lemma_digit(w, 0x1_0000_0000_0000);
}

/// A word that a tracer has written is the word that it reads, also across the end of a page:
/// if it can be written without a page fault it can be read without one, and reading it gives
/// what was written.
pub proof fn law_poke_then_peek_data(
    mm: MemoryView,
    after: MemoryView,
    addr: usize,
    value: u64,
    vm: Option<usize>,
    step: PeekStep,
)
    requires
        mm.wf(),
        mm.has_vm(vm),
        addr + WORD_SIZE <= usize::MAX,
        poke_is(PokeStep::Done(Ok(())), mm, addr, word_bytes(value), vm, None, 0, after),
        peek_is(
            step,
            after,
            addr,
            seq![0u8, 0u8, 0u8, 0u8, 0u8, 0u8, 0u8, 0u8],
            vm,
            None,
            0,
        ),
    ensures
        step == PeekStep::Done(Ok::<u64, SystemError>(value)),
{
    let bytes = word_bytes(value);
    crate::mm::transfer::lemma_stop_at(mm, addr, true, vm, None, 0, 0, WORD_SIZE as int);
    assert forall|i: int| 0 <= i < WORD_SIZE implies #[trigger] crate::mm::transfer::place_of(
        mm,
        addr,
        true,
        vm,
        None,
        0,
        i,
    ) is At by {}
    crate::mm::transfer::law_pages_in_different_frames_do_not_clash(mm, addr, bytes, vm);
    crate::mm::transfer::law_written_bytes_are_read_back(mm, addr, bytes, vm);
    crate::mm::transfer::lemma_stop_at(after, addr, false, vm, None, 0, 0, WORD_SIZE as int);
    let n = crate::mm::transfer::stop_at(after, addr, false, vm, None, 0, 0, WORD_SIZE as int);
    if n < WORD_SIZE {
        assert(crate::mm::transfer::place_of(after, addr, false, vm, None, 0, n) is At);
    }
    let zeros = seq![0u8, 0u8, 0u8, 0u8, 0u8, 0u8, 0u8, 0u8];
    let read = crate::mm::transfer::peeked(after, addr, zeros, vm, None, 0, n);
    assert forall|i: int| 0 <= i < WORD_SIZE implies #[trigger] read[i] == bytes[i] by {
        assert(crate::mm::transfer::place_of(after, addr, false, vm, None, 0, i) is At);
    }
    assert(read =~= bytes);
    law_word_is_made_of_its_bytes(value);
}

/// The word that a tracer reads is the sum of the bytes in memory, the one at the address for
/// itself and each further one for 256 times as much as the one before. All eight are there.
pub proof fn law_peeked_word_is_the_sum_of_its_bytes(
    mm: MemoryView,
    addr: usize,
    vm: Option<usize>,
    word: u64,
)
    requires
        peek_is(
            PeekStep::Done(Ok(word)),
            mm,
            addr,
            seq![0u8, 0u8, 0u8, 0u8, 0u8, 0u8, 0u8, 0u8],
            vm,
            None,
            0,
        ),
    ensures
        forall|i: int|
            0 <= i < 8 ==> #[trigger] mm.byte_place(vm, (addr + i) as usize, false, false) is At,
        ({
            let byte = |i: int|
                mm.ram[mm.byte_place(vm, (addr + i) as usize, false, false)->At_0 as int] as int;
            word == byte(0) + 0x100 * byte(1) + 0x1_0000 * byte(2) + 0x100_0000 * byte(3)
                + 0x1_0000_0000 * byte(4) + 0x100_0000_0000 * byte(5) + 0x1_0000_0000_0000 * byte(6)
                + 0x100_0000_0000_0000 * byte(7)
        }),
{
    let zeros = seq![0u8, 0u8, 0u8, 0u8, 0u8, 0u8, 0u8, 0u8];
    crate::mm::transfer::lemma_stop_at(mm, addr, false, vm, None, 0, 0, 8);
    crate::mm::transfer::law_read_bytes_are_those_in_memory(mm, addr, zeros, vm, None, 0, 8);
    assert forall|i: int| 0 <= i < 8 implies #[trigger] mm.byte_place(
        vm,
        (addr + i) as usize,
        false,
        false,
    ) is At by {
        assert(crate::mm::transfer::place_of(mm, addr, false, vm, None, 0, i) is At);
    }
}

/// Each byte of a word is the word moved down by eight bits as often as the byte lies behind the
/// first one, without the bits above.
pub proof fn law_bytes_of_a_word_are_its_digits(word: u64, i: int)
    requires
        0 <= i < 8,
    ensures
        word_bytes(word).len() == 8,
        word_bytes(word)[i] as u64 == (word >> ((8 * i) as u64)) & 0xff,
{
    let w = word;
    assert((w >> 0u64) & 0xff == w % 0x100 && (w >> 8u64) & 0xff == w / 0x100 % 0x100 && (w
        >> 16u64) & 0xff == w / 0x1_0000 % 0x100 && (w >> 24u64) & 0xff == w / 0x100_0000 % 0x100
        && (w >> 32u64) & 0xff == w / 0x1_0000_0000 % 0x100 && (w >> 40u64) & 0xff == w
        / 0x100_0000_0000 % 0x100 && (w >> 48u64) & 0xff == w / 0x1_0000_0000_0000 % 0x100 && (w
        >> 56u64) & 0xff == w / 0x100_0000_0000_0000) by (bit_vector);
}

/// A word that a tracer writes lies in memory with its least significant byte at the address,
/// and the more significant ones behind it in their order. No other byte in memory changes.
pub proof fn law_poked_word_lies_in_memory(
    mm: MemoryView,
    after: MemoryView,
    addr: usize,
    value: u64,
    vm: Option<usize>,
)
    requires
        mm.wf(),
        mm.has_vm(vm),
        addr + 8 <= usize::MAX,
        poke_is(PokeStep::Done(Ok(())), mm, addr, word_bytes(value), vm, None, 0, after),
    ensures
        after.spaces == mm.spaces,
        after.ram.len() == mm.ram.len(),
        forall|i: int|
            0 <= i < 8 ==> (#[trigger] mm.byte_place(vm, (addr + i) as usize, true, false)) is At
                && after.ram[mm.byte_place(
                vm,
                (addr + i) as usize,
                true,
                false,
            )->At_0 as int] as u64 == (value >> ((8 * i) as u64)) & 0xff,
        forall|phys: int|
            0 <= phys < mm.ram.len() && #[trigger] after.ram[phys] != mm.ram[phys] ==> exists|
                i: int,
            |
                0 <= i < 8 && (#[trigger] mm.byte_place(
                    vm,
                    (addr + i) as usize,
                    true,
                    false,
                ))->At_0 == phys,
{
    let bytes = word_bytes(value);
    crate::mm::transfer::lemma_stop_at(mm, addr, true, vm, None, 0, 0, 8);
    crate::mm::transfer::law_written_bytes_lie_in_memory(mm, addr, bytes, vm, None, 0, 8);
    assert forall|i: int| 0 <= i < 8 implies (#[trigger] mm.byte_place(
        vm,
        (addr + i) as usize,
        true,
        false,
    )) is At && after.ram[mm.byte_place(vm, (addr + i) as usize, true, false)->At_0 as int] as u64
        == (value >> ((8 * i) as u64)) & 0xff by {
        assert(crate::mm::transfer::place_of(mm, addr, true, vm, None, 0, i) is At);
        law_bytes_of_a_word_are_its_digits(value, i);
    }
    assert forall|phys: int|
        0 <= phys < mm.ram.len() && #[trigger] after.ram[phys] != mm.ram[phys] implies exists|
        i: int,
    |
        0 <= i < 8 && (#[trigger] mm.byte_place(vm, (addr + i) as usize, true, false))->At_0
            == phys by {
        let i = choose|i: int|
            0 <= i < 8 && (#[trigger] crate::mm::transfer::place_of(
                mm,
                addr,
                true,
                vm,
                None,
                0,
                i,
            ))->At_0 == phys;
        assert(mm.byte_place(vm, (addr + i) as usize, true, false)->At_0 == phys);
    }
}

/// A word can be accessed exactly if all of its eight bytes lie below the end of the user's part.
pub proof fn law_word_lies_below_the_end(addr: usize, user_end: usize)
    ensures
        is_user_word(addr, user_end) <==> forall|i: int|
            0 <= i < 8 ==> (#[trigger] (addr + i)) < user_end,
{
    if forall|i: int| 0 <= i < 8 ==> (#[trigger] (addr + i)) < user_end {
        assert(addr + 7 < user_end);
    }
}

} // verus!
