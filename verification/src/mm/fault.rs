//! Page faults that are taken for another process.
use crate::error::SystemError;
use crate::mm::address_space::{AddressSpace, AddressSpaceView};
use vstd::prelude::*;

verus! {

/// What has to be done next for a page fault.
#[derive(Debug, Clone, Copy, PartialEq, Eq, Structural)]
pub enum FaultStep {
    /// Bring a page of the file behind the mapping into memory; `page_committed` goes on.
    CommitPage { page_index: usize },
    /// Let the stack grow down by so many bytes, if it can; `stack_extended` goes on.
    ExtendStack { size: usize },
    /// Have the fault handled as one that is taken for another process; `handled` goes on.
    HandleFault,
}

/// A page fault that is taken for another process.
#[derive(Debug, Clone, Copy, PartialEq, Eq, Structural)]
pub struct PageFault {
    /// The place of the address space.
    pub vm: usize,
    pub addr: usize,
    /// The access is to write.
    pub write: bool,
    pub step: FaultStep,
}

impl AddressSpaceView {
    /// The last step of a page fault: it is handled if the address space is still in use.
    pub open spec fn fault_ready(self) -> Result<FaultStep, SystemError> {
        if self.attached {
            Ok(FaultStep::HandleFault)
        } else {
            Err(SystemError::EFAULT)
        }
    }

    /// How a page fault goes on with the file out of the way: an address that is not mapped
    /// can only be one that a stack may grow down to.
    pub open spec fn fault_mapped(self, addr: usize) -> Result<FaultStep, SystemError> {
        match self.nearest(addr) {
            None => Err(SystemError::EIO),
            Some(vma) => if vma.contains(addr) {
                self.fault_ready()
            } else {
                let size = (vma.start - addr) as usize;
                let limit = match self.stack_limit {
                    Some(limit) => limit,
                    None => 0,
                };
                if !vma.grows_down || size > limit {
                    Err(SystemError::EIO)
                } else {
                    Ok(FaultStep::ExtendStack { size })
                }
            },
        }
    }

    /// How a page fault begins: where a file is behind the mapping, with its page.
    pub open spec fn fault_begun(self, addr: usize) -> Result<FaultStep, SystemError> {
        match self.nearest(addr) {
            None => Err(SystemError::EIO),
            Some(vma) => if vma.contains(addr) && vma.file is Some {
                match vma.backing_page(addr) {
                    Ok(page_index) => Ok(FaultStep::CommitPage { page_index }),
                    Err(e) => Err(e),
                }
            } else {
                self.fault_mapped(addr)
            },
        }
    }
}

impl AddressSpace {
    /// The last step of a page fault.
    fn fault_ready(&self) -> (res: Result<FaultStep, SystemError>)
        ensures
            res == self@.fault_ready(),
    {
        if self.attached {
            Ok(FaultStep::HandleFault)
        } else {
            Err(SystemError::EFAULT)
        }
    }

    /// Goes on with a page fault with the file out of the way.
    fn fault_mapped(&self, addr: usize) -> (res: Result<FaultStep, SystemError>)
        requires
            self@.wf(),
        ensures
            res == self@.fault_mapped(addr),
    {
        let vma = match self.find_nearest(addr) {
            Some(vma) => vma,
            None => {
                return Err(SystemError::EIO);
            },
        };
        if !vma.contains(addr) {
            if !vma.grows_down {
                return Err(SystemError::EIO);
            }
            let size: usize = vma.start - addr;
            let limit: usize = match self.stack_limit {
                Some(limit) => limit,
                None => 0,
            };
            if size > limit {
                return Err(SystemError::EIO);
            }
            return Ok(FaultStep::ExtendStack { size });
        }
        self.fault_ready()
    }

    /// Begins with a page fault for an address.
    pub fn fault_in_tracee_page(&self, addr: usize) -> (res: Result<FaultStep, SystemError>)
        requires
            self@.wf(),
        ensures
            res == self@.fault_begun(addr),
    {
        let vma = match self.find_nearest(addr) {
            Some(vma) => vma,
            None => {
                return Err(SystemError::EIO);
            },
        };
        if vma.contains(addr) && vma.file.is_some() {
            return match vma.prefault_file_backing(addr) {
                Ok(page_index) => Ok(FaultStep::CommitPage { page_index }),
                Err(e) => Err(e),
            };
        }
        self.fault_mapped(addr)
    }
}

/// A page fault with its next step, where there is one.
pub open spec fn next_fault(
    fault: PageFault,
    step: Result<FaultStep, SystemError>,
) -> Result<PageFault, SystemError> {
    match step {
        Ok(step) => Ok(PageFault { step, ..fault }),
        Err(e) => Err(e),
    }
}

impl PageFault {
    /// The page fault with its next step, where there is one.
    fn next(&self, step: Result<FaultStep, SystemError>) -> (res: Result<PageFault, SystemError>)
        ensures
            res == next_fault(*self, step),
    {
        match step {
            Ok(step) => Ok(PageFault { step, ..*self }),
            Err(e) => Err(e),
        }
    }

    /// Goes on when the page of the file has been brought into memory, or not.
    pub fn page_committed(&self, space: &AddressSpace, committed: Result<(), SystemError>) -> (res:
        Result<PageFault, SystemError>)
        requires
            space@.wf(),
        ensures
            match committed {
                Ok(()) => res == next_fault(*self, space@.fault_mapped(self.addr)),
                Err(e) => res == Err::<PageFault, _>(e),
            },
    {
        match committed {
            Ok(()) => self.next(space.fault_mapped(self.addr)),
            Err(e) => Err(e),
        }
    }

    /// Goes on when the stack has grown, or cannot grow.
    pub fn stack_extended(&self, space: &AddressSpace, extended: bool) -> (res: Result<
        PageFault,
        SystemError,
    >)
        ensures
            if extended {
                res == next_fault(*self, space@.fault_ready())
            } else {
                res == Err::<PageFault, _>(SystemError::EIO)
            },
    {
        if !extended {
            return Err(SystemError::EIO);
        }
        self.next(space.fault_ready())
    }

    /// Goes on when the fault has been handled: if that is `completed`, the access can be tried
    /// again.
    pub fn handled(&self, completed: bool) -> (res: Result<(), SystemError>)
        ensures
            res == if completed {
                Ok::<(), SystemError>(())
            } else {
                Err(SystemError::EIO)
            },
    {
        if completed {
            Ok(())
        } else {
            Err(SystemError::EIO)
        }
    }
}

/// Without a mapping at an address or above it every page fault there fails, and so does one
/// at an address that is not mapped if no stack may grow down to it.
pub proof fn law_fault_outside_of_every_mapping_fails(space: AddressSpaceView, addr: usize)
    requires
        space.wf(),
        !space.covers(addr),
        forall|i: int|
            0 <= i < space.vmas.len() ==> (#[trigger] space.vmas[i]).start <= addr
                || !space.vmas[i].grows_down,
    ensures
        space.fault_begun(addr) == Err::<FaultStep, _>(SystemError::EIO),
{
    let found = space.nearest(addr);
    lemma_some_nearest(space, addr);
    space.lemma_nearest(addr, found);
    if let Some(v) = found {
        let i = choose|i: int| 0 <= i < space.vmas.len() && space.vmas[i] == v;
        assert(space.vmas[i] == v);
    }
}

/// There is always a nearest range, or none at all.
proof fn lemma_some_nearest(space: AddressSpaceView, addr: usize)
    requires
        space.wf(),
    ensures
        space.is_nearest(addr, space.nearest(addr)),
{
    let found = lemma_nearest_among(space, addr, space.vmas.len());
    assert(space.is_nearest(addr, found));
}

/// Among the first `n` ranges there is a nearest one, or none at all.
proof fn lemma_nearest_among(space: AddressSpaceView, addr: usize, n: nat) -> (found: Option<
    crate::mm::address_space::Vma,
>)
    requires
        space.wf(),
        n <= space.vmas.len(),
    ensures
        (AddressSpaceView { vmas: space.vmas.take(n as int), ..space }).is_nearest(addr, found),
        n == space.vmas.len() ==> space.is_nearest(addr, found),
    decreases n,
{
    let here = AddressSpaceView { vmas: space.vmas.take(n as int), ..space };
    assert(space.vmas.take(space.vmas.len() as int) =~= space.vmas);
    if n == 0 {
        None
    } else {
        let before = lemma_nearest_among(space, addr, (n - 1) as nat);
        let prev = space.vmas.take(n - 1);
        assert forall|i: int| 0 <= i < n - 1 implies #[trigger] here.vmas[i] == prev[i] by {}
        let v = space.vmas[n - 1];
        assert(here.vmas[n - 1] == v);
        assert(v.wf());
        match before {
            Some(b) => {
                let j = choose|j: int| 0 <= j < prev.len() && prev[j] == b;
                assert(here.vmas[j] == b);
                if b.contains(addr) {
                    before
                } else if v.contains(addr) || (v.start > addr && v.start < b.start) {
                    Some(v)
                } else {
                    before
                }
            },
            None => {
                if v.contains(addr) || v.start > addr {
                    Some(v)
                } else {
                    None
                }
            },
        }
    }
}

/// A page fault at an address that is mapped: where a file is behind the mapping, the page of the
/// file as far behind its first one as the address is behind the start of the mapping is brought
/// into memory first, if it lies before the end of the file and can be kept in memory. Otherwise
/// the fault is handled if the address space is still in use.
pub proof fn law_fault_in_a_mapping(space: AddressSpaceView, addr: usize, i: int)
    requires
        space.wf(),
        0 <= i < space.vmas.len(),
        space.vmas[i].start <= addr < space.vmas[i].end,
    ensures
        ({
            let vma = space.vmas[i];
            match vma.file {
                None => space.fault_begun(addr) == if space.attached {
                    Ok::<FaultStep, SystemError>(FaultStep::HandleFault)
                } else {
                    Err(SystemError::EFAULT)
                },
                Some(file) => match file.page_offset {
                    None => space.fault_begun(addr) == Err::<FaultStep, _>(SystemError::EIO),
                    Some(first) => match file.size {
                        Err(e) => space.fault_begun(addr) == Err::<FaultStep, _>(e),
                        Ok(size) => {
                            let page = first + (addr - vma.start) / 4096;
                            if file.has_page_cache && page * 4096 < size {
                                space.fault_begun(addr) matches Ok(FaultStep::CommitPage {
                                    page_index,
                                }) && page_index == page
                            } else {
                                space.fault_begun(addr) == Err::<FaultStep, _>(SystemError::EIO)
                            }
                        },
                    },
                },
            }
        }),
        space.fault_mapped(addr) == if space.attached {
            Ok::<FaultStep, SystemError>(FaultStep::HandleFault)
        } else {
            Err(SystemError::EFAULT)
        },
{
    let vma = space.vmas[i];
    space.lemma_nearest(addr, Some(vma));
    assert(vma.wf());
    vstd::arithmetic::div_mod::lemma_div_is_ordered(addr - vma.start, vma.end - vma.start, 4096);
}

/// A page fault at an address that is not mapped lets the next mapping above grow down to it, if
/// that is one of a stack and the distance is within the limit, and fails otherwise.
pub proof fn law_fault_below_a_mapping(space: AddressSpaceView, addr: usize, i: int)
    requires
        space.wf(),
        0 <= i < space.vmas.len(),
        addr < space.vmas[i].start,
        forall|j: int|
            0 <= j < space.vmas.len() ==> (#[trigger] space.vmas[j]).end <= addr
                || space.vmas[i].start <= space.vmas[j].start,
    ensures
        ({
            let vma = space.vmas[i];
            let allowed = vma.grows_down && (space.stack_limit matches Some(limit) && vma.start
                - addr <= limit);
            space.fault_begun(addr) == if allowed {
                Ok::<FaultStep, SystemError>(
                    FaultStep::ExtendStack { size: (vma.start - addr) as usize },
                )
            } else {
                Err(SystemError::EIO)
            }
        }),
{
    let vma = space.vmas[i];
    assert forall|j: int| 0 <= j < space.vmas.len() implies !(
    #[trigger] space.vmas[j]).contains(addr) && (space.vmas[j].start > addr ==> vma.start
        <= space.vmas[j].start) by {
        assert(space.vmas[j].wf());
    }
    assert(space.vmas.contains(vma));
    space.lemma_nearest(addr, Some(vma));
}

/// A page fault goes on for the same address with its next step, and fails as that does.
pub proof fn law_fault_goes_on_for_the_same_address(
    fault: PageFault,
    step: FaultStep,
    e: SystemError,
)
    ensures
        next_fault(fault, Ok(step)) == Ok::<PageFault, SystemError>(
            PageFault { vm: fault.vm, addr: fault.addr, write: fault.write, step },
        ),
        next_fault(fault, Err(e)) == Err::<PageFault, SystemError>(e),
{
}

/// A page fault is handled exactly as long as the address space is in use.
pub proof fn law_fault_is_handled_while_attached(space: AddressSpaceView)
    ensures
        space.attached ==> space.fault_ready() == Ok::<FaultStep, SystemError>(
            FaultStep::HandleFault,
        ),
        !space.attached ==> space.fault_ready() == Err::<FaultStep, SystemError>(
            SystemError::EFAULT,
        ),
{
}

} // verus!
