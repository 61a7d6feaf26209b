//! Access to the memory of another process, byte by byte.
use crate::error::SystemError;
use crate::mm::address_space::{AddressSpace, AddressSpaceView, PAGE_SIZE};
use crate::mm::fault::PageFault;
use vstd::prelude::*;

verus! {

/// The memory of the machine, and the address spaces on it.
#[derive(Debug)]
pub struct Memory {
    pub spaces: Vec<AddressSpace>,
    /// The bytes by their physical address.
    pub ram: Vec<u8>,
}

/// `Memory` as a mathematical value.
#[verifier::ext_equal]
pub struct MemoryView {
    pub spaces: Seq<AddressSpaceView>,
    pub ram: Seq<u8>,
}

impl View for Memory {
    type V = MemoryView;

    open spec fn view(&self) -> MemoryView {
        MemoryView { spaces: self.spaces@.map_values(|s: AddressSpace| s@), ram: self.ram@ }
    }
}

/// Where the byte at an address is, or what an access to it comes to.
pub enum BytePlace {
    /// At this physical address.
    At(usize),
    /// It cannot be accessed.
    Fail(SystemError),
    /// A page fault has to be taken first.
    Fault(PageFault),
}

/// What came of reading a byte.
#[derive(Debug, PartialEq, Eq)]
pub enum ByteRead {
    Done(Result<u8, SystemError>),
    Fault(PageFault),
}

/// What came of writing a byte.
#[derive(Debug, PartialEq, Eq)]
pub enum ByteWritten {
    Done(Result<(), SystemError>),
    Fault(PageFault),
}

impl MemoryView {
    /// Every address space is well formed.
    pub open spec fn wf(self) -> bool {
        forall|i: int| 0 <= i < self.spaces.len() ==> (#[trigger] self.spaces[i]).wf()
    }

    /// Whether `vm` is the place of an address space, or stands for none.
    pub open spec fn has_vm(self, vm: Option<usize>) -> bool {
        match vm {
            Some(i) => i < self.spaces.len(),
            None => true,
        }
    }

    /// Where the byte at an address is: a task without an address space has none, and an
    /// address that cannot be accessed as it is needs a page fault, unless one has been taken
    /// for it.
    pub open spec fn byte_place(
        self,
        vm: Option<usize>,
        addr: usize,
        write: bool,
        faulted: bool,
    ) -> BytePlace {
        match vm {
            None => BytePlace::Fail(SystemError::ESRCH),
            Some(i) => match self.spaces[i as int].reachable(addr, write) {
                Some(phys) => if phys < self.ram.len() {
                    BytePlace::At(phys)
                } else {
                    BytePlace::Fail(SystemError::EIO)
                },
                None => if faulted {
                    BytePlace::Fail(SystemError::EIO)
                } else {
                    match self.spaces[i as int].fault_begun(addr) {
                        Ok(step) => BytePlace::Fault(PageFault { vm: i, addr, write, step }),
                        Err(e) => BytePlace::Fail(e),
                    }
                },
            },
        }
    }

    /// The same memory with another byte at a physical address.
    pub open spec fn with_byte(self, phys: usize, value: u8) -> MemoryView {
        MemoryView { ram: self.ram.update(phys as int, value), ..self }
    }
}

impl Memory {
    /// Finds the byte at an address.
    fn access_user_byte(&self, vm: Option<usize>, addr: usize, write: bool, faulted: bool) -> (
        place: BytePlace)
        requires
            self@.wf(),
            self@.has_vm(vm),
        ensures
            place == self@.byte_place(vm, addr, write, faulted),
            place matches BytePlace::At(phys) ==> phys < self@.ram.len(),
    {
        let i: usize = match vm {
            Some(i) => i,
            None => {
                return BytePlace::Fail(SystemError::ESRCH);
            },
        };
        let space = &self.spaces[i];
        assert(self@.spaces[i as int] == space@);
        let vma = space.find_nearest(addr);
        let mapped = match vma {
            Some(vma) => vma.contains(addr),
            None => false,
        };
        if mapped {
            if let Some(entry) = space.translate(addr) {
                if !write || entry.writable {
                    proof {
                        crate::mm::address_space::lemma_lookup(
                            space@.pages,
                            (addr / PAGE_SIZE) as usize,
                        );
                        let k = choose|k: int|
                            0 <= k < space@.pages.len() && space@.pages[k] == entry;
                        assert(space@.pages[k].frame % PAGE_SIZE == 0);
                    }
                    let phys: usize = entry.frame + addr % PAGE_SIZE;
                    if phys < self.ram.len() {
                        return BytePlace::At(phys);
                    }
                    return BytePlace::Fail(SystemError::EIO);
                }
            }
        }
        if faulted {
            return BytePlace::Fail(SystemError::EIO);
        }
        match space.fault_in_tracee_page(addr) {
            Ok(step) => BytePlace::Fault(PageFault { vm: i, addr, write, step }),
            Err(e) => BytePlace::Fail(e),
        }
    }

    /// Reads the byte at an address of an address space. `faulted` tells that a page fault has
    /// been taken for it.
    pub fn peek_user_byte(&self, vm: Option<usize>, addr: usize, faulted: bool) -> (read: ByteRead)
        requires
            self@.wf(),
            self@.has_vm(vm),
        ensures
            match self@.byte_place(vm, addr, false, faulted) {
                BytePlace::At(phys) => read == ByteRead::Done(
                    Ok::<u8, SystemError>(self@.ram[phys as int]),
                ),
                BytePlace::Fail(e) => read == ByteRead::Done(Err::<u8, SystemError>(e)),
                BytePlace::Fault(fault) => read == ByteRead::Fault(fault),
            },
    {
        match self.access_user_byte(vm, addr, false, faulted) {
            BytePlace::At(phys) => ByteRead::Done(Ok(self.ram[phys])),
            BytePlace::Fail(e) => ByteRead::Done(Err(e)),
            BytePlace::Fault(fault) => ByteRead::Fault(fault),
        }
    }

    /// Writes the byte at an address of an address space. `faulted` tells that a page fault has
    /// been taken for it.
    pub fn poke_user_byte(&mut self, vm: Option<usize>, addr: usize, value: u8, faulted: bool) -> (
        written: ByteWritten)
        requires
            old(self)@.wf(),
            old(self)@.has_vm(vm),
        ensures
            match old(self)@.byte_place(vm, addr, true, faulted) {
                BytePlace::At(phys) => written == ByteWritten::Done(Ok::<(), SystemError>(()))
                    && final(self)@ == old(self)@.with_byte(phys, value),
                BytePlace::Fail(e) => written == ByteWritten::Done(Err::<(), SystemError>(e))
                    && final(self)@ == old(self)@,
                BytePlace::Fault(fault) => written == ByteWritten::Fault(fault) && final(self)@
                    == old(self)@,
            },
            final(self)@.spaces == old(self)@.spaces,
            final(self)@.ram.len() == old(self)@.ram.len(),
    {
        match self.access_user_byte(vm, addr, true, faulted) {
            BytePlace::At(phys) => {
                self.ram[phys] = value;
                ByteWritten::Done(Ok(()))
            },
            BytePlace::Fail(e) => ByteWritten::Done(Err(e)),
            BytePlace::Fault(fault) => ByteWritten::Fault(fault),
        }
    }
}

/// A byte that is mapped, and whose page is in memory, lies in the frame of that page, as far
/// from its start as the address is from the start of the page. A page that may not be written
/// does not count for writing, and a frame outside of the memory cannot be accessed.
pub proof fn law_byte_lies_in_the_frame_of_its_page(
    mm: MemoryView,
    v: usize,
    addr: usize,
    write: bool,
    faulted: bool,
    k: int,
    i: int,
)
    requires
        mm.wf(),
        v < mm.spaces.len(),
        0 <= k < mm.spaces[v as int].pages.len(),
        mm.spaces[v as int].pages[k].page == addr / 4096,
        forall|j: int| 0 <= j < k ==> (#[trigger] mm.spaces[v as int].pages[j]).page != addr / 4096,
        0 <= i < mm.spaces[v as int].vmas.len(),
        mm.spaces[v as int].vmas[i].start <= addr < mm.spaces[v as int].vmas[i].end,
        write ==> mm.spaces[v as int].pages[k].writable,
    ensures
        mm.byte_place(Some(v), addr, write, faulted) == {
            let phys = (mm.spaces[v as int].pages[k].frame + addr % 4096) as usize;
            if phys < mm.ram.len() {
                BytePlace::At(phys)
            } else {
                BytePlace::Fail(SystemError::EIO)
            }
        },
{
    let space = mm.spaces[v as int];
    crate::mm::address_space::law_lookup_finds_the_first_entry(space.pages, (addr / 4096) as usize);
    assert(space.pages[k].frame % PAGE_SIZE == 0);
    assert(space.vmas[i].contains(addr));
}

/// A byte that is not mapped, or whose page is not in memory, or not to be written, needs a page
/// fault for that access, and cannot be accessed if one has been taken already. A task without
/// an address space has no bytes.
pub proof fn law_byte_that_is_not_there_needs_a_fault(
    mm: MemoryView,
    v: usize,
    addr: usize,
    write: bool,
)
    requires
        mm.wf(),
        v < mm.spaces.len(),
        (forall|k: int|
            0 <= k < mm.spaces[v as int].pages.len() && (
            #[trigger] mm.spaces[v as int].pages[k]).page == addr / 4096 ==> write
                && !mm.spaces[v as int].pages[k].writable) || (forall|i: int|
            0 <= i < mm.spaces[v as int].vmas.len() ==> !((
            #[trigger] mm.spaces[v as int].vmas[i]).start <= addr
                < mm.spaces[v as int].vmas[i].end)),
    ensures
        mm.byte_place(Some(v), addr, write, true) == BytePlace::Fail(SystemError::EIO),
        match mm.byte_place(Some(v), addr, write, false) {
            BytePlace::At(_) => false,
            BytePlace::Fail(_) => true,
            BytePlace::Fault(fault) => fault.vm == v && fault.addr == addr && fault.write == write,
        },
        mm.byte_place(None, addr, write, true) == BytePlace::Fail(SystemError::ESRCH),
        mm.byte_place(None, addr, write, false) == BytePlace::Fail(SystemError::ESRCH),
{
    let space = mm.spaces[v as int];
    crate::mm::address_space::lemma_lookup(space.pages, (addr / PAGE_SIZE) as usize);
    if space.translate(addr) is Some {
        let entry = space.translate(addr)->Some_0;
        let k = choose|k: int| 0 <= k < space.pages.len() && space.pages[k] == entry;
        assert(mm.spaces[v as int].pages[k] == entry);
        if space.covers(addr) {
            let i = choose|i: int|
                0 <= i < space.vmas.len() && (#[trigger] space.vmas[i]).contains(addr);
            assert(mm.spaces[v as int].vmas[i].start <= addr < mm.spaces[v as int].vmas[i].end);
        }
    }
}

} // verus!
