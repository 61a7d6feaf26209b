//! Access to a stretch of the memory of another process.
use crate::error::SystemError;
use crate::mm::access::{BytePlace, ByteRead, ByteWritten, Memory, MemoryView};
use crate::mm::address_space::PAGE_SIZE;
use crate::mm::fault::PageFault;
use vstd::prelude::*;

verus! {

/// Bytes on their way from or to the memory of another process.
#[derive(Debug)]
pub struct UserAccess {
    /// The address of the first byte.
    pub addr: usize,
    /// The bytes.
    pub buf: Vec<u8>,
    /// How many bytes are done.
    pub copied: usize,
}

/// How far an access is.
#[derive(Debug, PartialEq, Eq)]
pub enum AccessStep {
    /// All bytes are done.
    Finished,
    /// The next byte cannot be accessed.
    Stopped(SystemError),
    /// A page fault has to be taken for the next byte. Once it is handled, the access goes on
    /// with the address space of the fault to try again.
    Fault(PageFault),
}

/// Where the byte at place `i` is for an access that goes on with the byte at place `from`, for
/// a process with the address space `vm`. If a page fault has been taken, then for that byte, and
/// for this byte the access stays with the address space `retry` of the fault.
pub open spec fn place_of(
    mm: MemoryView,
    addr: usize,
    write: bool,
    vm: Option<usize>,
    retry: Option<usize>,
    from: int,
    i: int,
) -> BytePlace {
    let again = i == from && retry is Some;
    mm.byte_place(
        if again {
            retry
        } else {
            vm
        },
        (addr + i) as usize,
        write,
        again,
    )
}

/// Whether an access that stands at the byte at place `n` out of `len` is in this step, if the
/// byte is at `place`.
pub open spec fn step_is(step: AccessStep, n: int, len: int, place: BytePlace) -> bool {
    if n >= len {
        step == AccessStep::Finished
    } else {
        match place {
            BytePlace::At(_) => false,
            BytePlace::Fail(e) => step == AccessStep::Stopped(e),
            BytePlace::Fault(fault) => step == AccessStep::Fault(fault),
        }
    }
}

/// The place of the byte at which an access of `len` bytes stands that goes on with the byte at
/// place `from` and has come to place `n`: the next one that is not simply there, or the end.
pub open spec fn stop_at(
    mm: MemoryView,
    addr: usize,
    write: bool,
    vm: Option<usize>,
    retry: Option<usize>,
    from: int,
    n: int,
    len: int,
) -> int
    decreases len - n,
{
    if n >= len || !(place_of(mm, addr, write, vm, retry, from, n) is At) {
        n
    } else {
        stop_at(mm, addr, write, vm, retry, from, n + 1, len)
    }
}

/// An access stands at no byte before the one it has come to, and what it has passed is there.
pub proof fn lemma_stop_at(
    mm: MemoryView,
    addr: usize,
    write: bool,
    vm: Option<usize>,
    retry: Option<usize>,
    from: int,
    n: int,
    len: int,
)
    requires
        n <= len,
    ensures
        ({
            let stop = stop_at(mm, addr, write, vm, retry, from, n, len);
            &&& n <= stop <= len
            &&& stop < len ==> !(place_of(mm, addr, write, vm, retry, from, stop) is At)
            &&& forall|i: int|
                n <= i < stop ==> #[trigger] place_of(mm, addr, write, vm, retry, from, i) is At
        }),
    decreases len - n,
{
    if n < len && place_of(mm, addr, write, vm, retry, from, n) is At {
        lemma_stop_at(mm, addr, write, vm, retry, from, n + 1, len);
    }
}

/// The bytes when those at the places `from` to `to` have been read.
pub open spec fn peeked(
    mm: MemoryView,
    addr: usize,
    buf: Seq<u8>,
    vm: Option<usize>,
    retry: Option<usize>,
    from: int,
    to: int,
) -> Seq<u8> {
    Seq::new(
        buf.len(),
        |i: int|
            if from <= i < to {
                mm.ram[place_of(mm, addr, false, vm, retry, from, i)->At_0 as int]
            } else {
                buf[i]
            },
    )
}

/// The memory when the bytes at the places `from` to `to` have been written.
pub open spec fn poked(
    mm: MemoryView,
    addr: usize,
    buf: Seq<u8>,
    vm: Option<usize>,
    retry: Option<usize>,
    from: int,
    to: int,
) -> MemoryView
    decreases to - from,
{
    if to <= from {
        mm
    } else {
        poked(mm, addr, buf, vm, retry, from, to - 1).with_byte(
            place_of(mm, addr, true, vm, retry, from, to - 1)->At_0,
            buf[to - 1],
        )
    }
}

/// Writing bytes changes no address space, and not how much memory there is.
proof fn lemma_poked_keeps(
    mm: MemoryView,
    addr: usize,
    buf: Seq<u8>,
    vm: Option<usize>,
    retry: Option<usize>,
    from: int,
    to: int,
)
    requires
        forall|i: int|
            from <= i < to ==> #[trigger] place_of(mm, addr, true, vm, retry, from, i) is At,
    ensures
        poked(mm, addr, buf, vm, retry, from, to).spaces == mm.spaces,
        poked(mm, addr, buf, vm, retry, from, to).ram.len() == mm.ram.len(),
    decreases to - from,
{
    if to > from {
        lemma_poked_keeps(mm, addr, buf, vm, retry, from, to - 1);
        assert(place_of(mm, addr, true, vm, retry, from, to - 1) is At);
    }
}

impl UserAccess {
    /// No more bytes are done than there are, and no address is too large.
    pub open spec fn wf(self) -> bool {
        &&& self.copied <= self.buf@.len()
        &&& self.addr + self.buf@.len() <= usize::MAX
    }

    /// Goes on reading for a process with the address space `vm`; `retry` is the address space
    /// of the page fault that has been taken for the next byte, if one has.
    pub fn read_on(&mut self, mm: &Memory, vm: Option<usize>, retry: Option<usize>) -> (step:
        AccessStep)
        requires
            old(self).wf(),
            mm@.wf(),
            mm@.has_vm(vm),
            mm@.has_vm(retry),
        ensures
            final(self).wf(),
            final(self).addr == old(self).addr,
            final(self).copied == stop_at(
                mm@,
                old(self).addr,
                false,
                vm,
                retry,
                old(self).copied as int,
                old(self).copied as int,
                old(self).buf@.len() as int,
            ),
            old(self).copied <= final(self).copied,
            final(self).buf@ == peeked(
                mm@,
                old(self).addr,
                old(self).buf@,
                vm,
                retry,
                old(self).copied as int,
                final(self).copied as int,
            ),
            step_is(
                step,
                final(self).copied as int,
                old(self).buf@.len() as int,
                place_of(
                    mm@,
                    old(self).addr,
                    false,
                    vm,
                    retry,
                    old(self).copied as int,
                    final(self).copied as int,
                ),
            ),
    {
        let from: usize = self.copied;
        while self.copied < self.buf.len()
            invariant
                self.wf(),
                mm@.wf(),
                mm@.has_vm(vm),
                mm@.has_vm(retry),
                from == old(self).copied,
                self.addr == old(self).addr,
                self.buf@.len() == old(self).buf@.len(),
                from <= self.copied,
                stop_at(
                    mm@,
                    old(self).addr,
                    false,
                    vm,
                    retry,
                    from as int,
                    from as int,
                    old(self).buf@.len() as int,
                ) == stop_at(
                    mm@,
                    old(self).addr,
                    false,
                    vm,
                    retry,
                    from as int,
                    self.copied as int,
                    old(self).buf@.len() as int,
                ),
                self.buf@ =~= peeked(
                    mm@,
                    old(self).addr,
                    old(self).buf@,
                    vm,
                    retry,
                    from as int,
                    self.copied as int,
                ),
            decreases self.buf@.len() - self.copied,
        {
            let k: usize = self.copied;
            let again = k == from && retry.is_some();
            let here = if again {
                retry
            } else {
                vm
            };
            assert(place_of(mm@, self.addr, false, vm, retry, from as int, k as int)
                == mm@.byte_place(here, (self.addr + k) as usize, false, again));
            match mm.peek_user_byte(here, self.addr + k, again) {
                ByteRead::Done(Ok(byte)) => {
                    self.buf[k] = byte;
                    self.copied = k + 1;
                },
                ByteRead::Done(Err(e)) => {
                    return AccessStep::Stopped(e);
                },
                ByteRead::Fault(fault) => {
                    return AccessStep::Fault(fault);
                },
            }
        }
        AccessStep::Finished
    }

    /// Goes on writing for a process with the address space `vm`; `retry` is the address space
    /// of the page fault that has been taken for the next byte, if one has.
    pub fn write_on(&mut self, mm: &mut Memory, vm: Option<usize>, retry: Option<usize>) -> (step:
        AccessStep)
        requires
            old(self).wf(),
            old(mm)@.wf(),
            old(mm)@.has_vm(vm),
            old(mm)@.has_vm(retry),
        ensures
            final(self).wf(),
            final(self).addr == old(self).addr,
            final(self).buf@ == old(self).buf@,
            final(self).copied == stop_at(
                old(mm)@,
                old(self).addr,
                true,
                vm,
                retry,
                old(self).copied as int,
                old(self).copied as int,
                old(self).buf@.len() as int,
            ),
            old(self).copied <= final(self).copied,
            step_is(
                step,
                final(self).copied as int,
                old(self).buf@.len() as int,
                place_of(
                    old(mm)@,
                    old(self).addr,
                    true,
                    vm,
                    retry,
                    old(self).copied as int,
                    final(self).copied as int,
                ),
            ),
            final(mm)@ == poked(
                old(mm)@,
                old(self).addr,
                old(self).buf@,
                vm,
                retry,
                old(self).copied as int,
                final(self).copied as int,
            ),
            final(mm)@.wf(),
    {
        let from: usize = self.copied;
        while self.copied < self.buf.len()
            invariant
                self.wf(),
                mm@.wf(),
                mm@.has_vm(vm),
                mm@.has_vm(retry),
                mm@.spaces == old(mm)@.spaces,
                mm@.ram.len() == old(mm)@.ram.len(),
                from == old(self).copied,
                self.addr == old(self).addr,
                self.buf@ == old(self).buf@,
                from <= self.copied,
                stop_at(
                    old(mm)@,
                    old(self).addr,
                    true,
                    vm,
                    retry,
                    from as int,
                    from as int,
                    old(self).buf@.len() as int,
                ) == stop_at(
                    old(mm)@,
                    old(self).addr,
                    true,
                    vm,
                    retry,
                    from as int,
                    self.copied as int,
                    old(self).buf@.len() as int,
                ),
                mm@ == poked(
                    old(mm)@,
                    old(self).addr,
                    old(self).buf@,
                    vm,
                    retry,
                    from as int,
                    self.copied as int,
                ),
            decreases self.buf@.len() - self.copied,
        {
            let k: usize = self.copied;
            let again = k == from && retry.is_some();
            let here = if again {
                retry
            } else {
                vm
            };
            assert(place_of(old(mm)@, self.addr, true, vm, retry, from as int, k as int)
                == mm@.byte_place(here, (self.addr + k) as usize, true, again));
            match mm.poke_user_byte(here, self.addr + k, self.buf[k], again) {
                ByteWritten::Done(Ok(())) => {
                    self.copied = k + 1;
                },
                ByteWritten::Done(Err(e)) => {
                    return AccessStep::Stopped(e);
                },
                ByteWritten::Fault(fault) => {
                    return AccessStep::Fault(fault);
                },
            }
        }
        AccessStep::Finished
    }
}

/// A byte that can be written lies in memory as far from the start of a page as its address.
proof fn lemma_place_in_page(mm: MemoryView, vm: Option<usize>, addr: usize)
    requires
        mm.wf(),
        mm.has_vm(vm),
        mm.byte_place(vm, addr, true, false) is At,
    ensures
        mm.byte_place(vm, addr, true, false)->At_0 as int % PAGE_SIZE as int == addr as int
            % PAGE_SIZE as int,
        mm.byte_place(vm, addr, true, false)->At_0 < mm.ram.len(),
        mm.byte_place(vm, addr, false, false) == mm.byte_place(vm, addr, true, false),
{
    let space = mm.spaces[vm->Some_0 as int];
    crate::mm::address_space::lemma_lookup(space.pages, (addr / PAGE_SIZE) as usize);
    let entry = space.translate(addr)->Some_0;
    let k = choose|k: int| 0 <= k < space.pages.len() && space.pages[k] == entry;
    assert(space.pages[k].frame % PAGE_SIZE == 0);
}

/// Whether no two bytes that are written to an address and up from there fall on each other:
/// of two that lie at one place in memory one would be lost, unless they are the same.
pub open spec fn do_not_clash(
    mm: MemoryView,
    addr: usize,
    buf: Seq<u8>,
    vm: Option<usize>,
) -> bool {
    forall|i: int, j: int|
        0 <= i < j < buf.len() && (#[trigger] place_of(mm, addr, true, vm, None, 0, i))->At_0 == (
        #[trigger] place_of(mm, addr, true, vm, None, 0, j))->At_0 ==> buf[i] == buf[j]
}

/// Bytes of a stretch of up to a page never fall on each other, and neither do those of a longer
/// one if its pages lie in different frames.
pub proof fn law_pages_in_different_frames_do_not_clash(
    mm: MemoryView,
    addr: usize,
    buf: Seq<u8>,
    vm: Option<usize>,
)
    requires
        mm.wf(),
        mm.has_vm(vm),
        addr + buf.len() <= usize::MAX,
        forall|i: int|
            0 <= i < buf.len() ==> #[trigger] place_of(mm, addr, true, vm, None, 0, i) is At,
        buf.len() <= PAGE_SIZE || forall|i: int, j: int|
            0 <= i < j < buf.len() && (addr + i) / PAGE_SIZE as int != (addr + j)
                / PAGE_SIZE as int ==> (#[trigger] place_of(
                mm,
                addr,
                true,
                vm,
                None,
                0,
                i,
            ))->At_0 as int / PAGE_SIZE as int != (#[trigger] place_of(
                mm,
                addr,
                true,
                vm,
                None,
                0,
                j,
            ))->At_0 as int / PAGE_SIZE as int,
    ensures
        do_not_clash(mm, addr, buf, vm),
{
    assert forall|i: int, j: int|
        0 <= i < j < buf.len() && (#[trigger] place_of(mm, addr, true, vm, None, 0, i))->At_0 == (
        #[trigger] place_of(mm, addr, true, vm, None, 0, j))->At_0 implies buf[i] == buf[j] by {
        lemma_place_in_page(mm, vm, (addr + i) as usize);
        lemma_place_in_page(mm, vm, (addr + j) as usize);
        assert((addr + i) % 4096 == (addr + j) % 4096);
        assert(j - i >= 4096);
        assert((addr + i) / 4096 != (addr + j) / 4096);
    }
}

/// Bytes that have been written are there, each at its place.
proof fn lemma_poked_bytes(
    mm: MemoryView,
    addr: usize,
    buf: Seq<u8>,
    vm: Option<usize>,
    to: int,
)
    requires
        mm.wf(),
        mm.has_vm(vm),
        0 <= to <= buf.len(),
        do_not_clash(mm, addr, buf, vm),
        addr + buf.len() <= usize::MAX,
        forall|i: int|
            0 <= i < to ==> #[trigger] mm.byte_place(vm, (addr + i) as usize, true, false) is At,
    ensures
        forall|i: int|
            0 <= i < to ==> poked(mm, addr, buf, vm, None, 0, to).ram[(#[trigger] mm.byte_place(
                vm,
                (addr + i) as usize,
                true,
                false,
            ))->At_0 as int] == buf[i],
    decreases to,
{
    if to > 0 {
        lemma_poked_bytes(mm, addr, buf, vm, to - 1);
        assert forall|i: int| 0 <= i < to implies #[trigger] place_of(
            mm,
            addr,
            true,
            vm,
            None,
            0,
            i,
        ) is At by {
            assert(mm.byte_place(vm, (addr + i) as usize, true, false) is At);
        }
        lemma_poked_keeps(mm, addr, buf, vm, None, 0, to - 1);
        lemma_place_in_page(mm, vm, (addr + (to - 1)) as usize);
        let last = mm.byte_place(vm, (addr + (to - 1)) as usize, true, false)->At_0;
        assert forall|i: int| 0 <= i < to implies poked(mm, addr, buf, vm, None, 0, to).ram[(
        #[trigger] mm.byte_place(vm, (addr + i) as usize, true, false))->At_0 as int] == buf[i] by {
            lemma_place_in_page(mm, vm, (addr + i) as usize);
            if i < to - 1 {
                let here = mm.byte_place(vm, (addr + i) as usize, true, false)->At_0;
                assert(place_of(mm, addr, true, vm, None, 0, i)->At_0 == here);
                assert(place_of(mm, addr, true, vm, None, 0, to - 1)->At_0 == last);
                assert(here == last ==> buf[i] == buf[to - 1]);
            }
        }
    }
}

/// Bytes that have been written to the memory of a process are read back from there, unless some
/// of them fall on each other.
pub proof fn law_written_bytes_are_read_back(
    mm: MemoryView,
    addr: usize,
    buf: Seq<u8>,
    vm: Option<usize>,
)
    requires
        mm.wf(),
        mm.has_vm(vm),
        do_not_clash(mm, addr, buf, vm),
        addr + buf.len() <= usize::MAX,
        forall|i: int|
            0 <= i < buf.len() ==> #[trigger] place_of(mm, addr, true, vm, None, 0, i) is At,
    ensures
        ({
            let after = poked(mm, addr, buf, vm, None, 0, buf.len() as int);
            forall|i: int|
                0 <= i < buf.len() ==> {
                    let place = #[trigger] place_of(after, addr, false, vm, None, 0, i);
                    place is At && after.ram[place->At_0 as int] == buf[i]
                }
        }),
{
    let after = poked(mm, addr, buf, vm, None, 0, buf.len() as int);
    assert forall|i: int| 0 <= i < buf.len() implies #[trigger] mm.byte_place(
        vm,
        (addr + i) as usize,
        true,
        false,
    ) is At by {
        assert(place_of(mm, addr, true, vm, None, 0, i) is At);
    }
    lemma_poked_bytes(mm, addr, buf, vm, buf.len() as int);
    lemma_poked_keeps(mm, addr, buf, vm, None, 0, buf.len() as int);
    assert forall|i: int| 0 <= i < buf.len() implies ({
        let place = #[trigger] place_of(after, addr, false, vm, None, 0, i);
        place is At && after.ram[place->At_0 as int] == buf[i]
    }) by {
        assert(place_of(mm, addr, true, vm, None, 0, i) is At);
        lemma_place_in_page(mm, vm, (addr + i) as usize);
    }
}

/// Bytes that are written lie each at its place in memory, and nothing else in memory changes.
/// The first byte is written where the page fault was that has been taken for it, if one has.
pub proof fn law_written_bytes_lie_in_memory(
    mm: MemoryView,
    addr: usize,
    buf: Seq<u8>,
    vm: Option<usize>,
    retry: Option<usize>,
    from: int,
    to: int,
)
    requires
        mm.wf(),
        mm.has_vm(vm),
        mm.has_vm(retry),
        0 <= from <= to <= buf.len(),
        to - from <= PAGE_SIZE,
        addr + buf.len() <= usize::MAX,
        forall|i: int|
            from <= i < to ==> #[trigger] place_of(mm, addr, true, vm, retry, from, i) is At,
    ensures
        ({
            let after = poked(mm, addr, buf, vm, retry, from, to);
            &&& after.spaces == mm.spaces
            &&& after.ram.len() == mm.ram.len()
            &&& from < to ==> after.ram[mm.byte_place(
                if retry is Some {
                    retry
                } else {
                    vm
                },
                (addr + from) as usize,
                true,
                retry is Some,
            )->At_0 as int] == buf[from]
            &&& forall|i: int|
                from < i < to ==> after.ram[(#[trigger] mm.byte_place(
                    vm,
                    (addr + i) as usize,
                    true,
                    false,
                ))->At_0 as int] == buf[i]
            &&& forall|phys: int|
                0 <= phys < mm.ram.len() && #[trigger] after.ram[phys] != mm.ram[phys] ==> exists|
                    i: int,
                |
                    from <= i < to && (#[trigger] place_of(
                        mm,
                        addr,
                        true,
                        vm,
                        retry,
                        from,
                        i,
                    ))->At_0 == phys
        }),
    decreases to - from,
{
    lemma_poked_keeps(mm, addr, buf, vm, retry, from, to);
    if from < to {
        let last = to - 1;
        let before = poked(mm, addr, buf, vm, retry, from, last);
        let after = poked(mm, addr, buf, vm, retry, from, to);
        law_written_bytes_lie_in_memory(mm, addr, buf, vm, retry, from, last);
        let end = place_of(mm, addr, true, vm, retry, from, last)->At_0;
        lemma_place_of_in_page(mm, addr, vm, retry, from, last);
        assert(after.ram == before.ram.update(end as int, buf[last]));
        assert forall|i: int| from <= i < last implies #[trigger] place_of(
            mm,
            addr,
            true,
            vm,
            retry,
            from,
            i,
        )->At_0 != end by {
            lemma_place_of_in_page(mm, addr, vm, retry, from, i);
            assert((addr + i) % 4096 != (addr + last) % 4096);
        }
        assert forall|i: int| from <= i < to implies after.ram[(#[trigger] place_of(
            mm,
            addr,
            true,
            vm,
            retry,
            from,
            i,
        ))->At_0 as int] == buf[i] by {
            lemma_place_of_in_page(mm, addr, vm, retry, from, i);
            if i < last {
                if i == from {
                    assert(before.ram[place_of(mm, addr, true, vm, retry, from, i)->At_0 as int]
                        == buf[i]);
                } else {
                    assert(before.ram[mm.byte_place(
                        vm,
                        (addr + i) as usize,
                        true,
                        false,
                    )->At_0 as int] == buf[i]);
                }
            }
        }
        assert(after.ram[place_of(mm, addr, true, vm, retry, from, from)->At_0 as int]
            == buf[from]);
        assert forall|i: int| from < i < to implies after.ram[(#[trigger] mm.byte_place(
            vm,
            (addr + i) as usize,
            true,
            false,
        ))->At_0 as int] == buf[i] by {
            assert(after.ram[place_of(mm, addr, true, vm, retry, from, i)->At_0 as int] == buf[i]);
        }
        assert forall|phys: int|
            0 <= phys < mm.ram.len() && #[trigger] after.ram[phys] != mm.ram[phys] implies exists|
            i: int,
        |
            from <= i < to && (#[trigger] place_of(mm, addr, true, vm, retry, from, i))->At_0
                == phys by {
            if phys == end {
                assert(place_of(mm, addr, true, vm, retry, from, last)->At_0 == phys);
            } else {
                assert(before.ram[phys] != mm.ram[phys]);
                let i = choose|i: int|
                    from <= i < last && (#[trigger] place_of(
                        mm,
                        addr,
                        true,
                        vm,
                        retry,
                        from,
                        i,
                    ))->At_0 == phys;
                assert(place_of(mm, addr, true, vm, retry, from, i)->At_0 == phys);
            }
        }
    }
}

/// A byte that can be written lies in memory as far from the start of a page as its address,
/// whether or not a page fault has been taken for it.
proof fn lemma_place_of_in_page(
    mm: MemoryView,
    addr: usize,
    vm: Option<usize>,
    retry: Option<usize>,
    from: int,
    i: int,
)
    requires
        mm.wf(),
        mm.has_vm(vm),
        mm.has_vm(retry),
        0 <= i,
        addr + i <= usize::MAX,
        place_of(mm, addr, true, vm, retry, from, i) is At,
    ensures
        place_of(mm, addr, true, vm, retry, from, i)->At_0 as int % 4096 == (addr + i) % 4096,
        place_of(mm, addr, true, vm, retry, from, i)->At_0 < mm.ram.len(),
{
    if i == from && retry is Some {
        lemma_place_in_page(mm, retry, (addr + i) as usize);
    } else {
        lemma_place_in_page(mm, vm, (addr + i) as usize);
    }
}

/// Bytes that are read are those that lie in memory, each at its place; those that were read
/// before stay. The first byte is read where the page fault was that has been taken for it, if
/// one has.
pub proof fn law_read_bytes_are_those_in_memory(
    mm: MemoryView,
    addr: usize,
    buf: Seq<u8>,
    vm: Option<usize>,
    retry: Option<usize>,
    from: int,
    to: int,
)
    requires
        0 <= from <= to <= buf.len(),
    ensures
        ({
            let read = peeked(mm, addr, buf, vm, retry, from, to);
            &&& read.len() == buf.len()
            &&& forall|i: int| 0 <= i < from || to <= i < buf.len() ==> #[trigger] read[i] == buf[i]
            &&& forall|i: int|
                from < i < to || (i == from && from < to && retry is None) ==> #[trigger] read[i]
                    == mm.ram[mm.byte_place(vm, (addr + i) as usize, false, false)->At_0 as int]
            &&& from < to && retry is Some ==> read[from] == mm.ram[mm.byte_place(
                retry,
                (addr + from) as usize,
                false,
                true,
            )->At_0 as int]
        }),
{
}

/// An access is finished when it has come to its end, and stands before that at a byte that cannot
/// be accessed, or needs a page fault.
pub proof fn law_where_an_access_stands(step: AccessStep, n: int, len: int, place: BytePlace)
    requires
        step_is(step, n, len, place),
    ensures
        step is Finished <==> n >= len,
        step matches AccessStep::Stopped(e) ==> n < len && place == BytePlace::Fail(e),
        step matches AccessStep::Fault(fault) ==> n < len && place == BytePlace::Fault(fault),
{
}

} // verus!
