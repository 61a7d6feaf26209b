//! Address spaces: what is mapped where, and the memory behind it.
use crate::error::SystemError;
use vstd::prelude::*;

verus! {

/// The size of a page.
pub const PAGE_SIZE: usize = 4096;

/// The file behind a mapping.
#[derive(Debug, Clone, Copy)]
pub struct FileBacking {
    /// The page of the file at the start of the mapping, where that is known.
    pub page_offset: Option<usize>,
    /// The size of the file, or why it cannot be told.
    pub size: Result<i64, SystemError>,
    /// The pages of the file can be kept in memory.
    pub has_page_cache: bool,
}

/// A range of addresses that are mapped in one way.
#[derive(Debug, Clone, Copy)]
pub struct Vma {
    pub start: usize,
    /// The first address behind the range.
    pub end: usize,
    /// The range may grow down, as that of a stack does.
    pub grows_down: bool,
    pub file: Option<FileBacking>,
}

impl Vma {
    pub open spec fn spec_contains(&self, addr: usize) -> bool {
        self.start <= addr < self.end
    }

    /// Whether an address is in the range.
    #[verifier::when_used_as_spec(spec_contains)]
    pub fn contains(&self, addr: usize) -> (b: bool)
        ensures
            b == self.contains(addr),
    {
        self.start <= addr && addr < self.end
    }

    /// The range is not empty, and the pages of the file behind it can be counted.
    pub open spec fn wf(self) -> bool {
        &&& self.start < self.end
        &&& match self.file {
            Some(file) => match file.page_offset {
                Some(page) => page + (self.end - self.start) / PAGE_SIZE as int <= usize::MAX,
                None => true,
            },
            None => true,
        }
    }

    /// The page of the file that is behind an address of the range.
    pub open spec fn file_page(self, addr: usize) -> int {
        self.file->Some_0.page_offset->Some_0 + (addr - self.start) / PAGE_SIZE as int
    }

    /// The page of the file that has to be brought into memory for an access to an address of
    /// the range: there is none behind the end of the file, and without a place to keep it.
    pub open spec fn backing_page(self, addr: usize) -> Result<usize, SystemError> {
        match self.file {
            None => Err(SystemError::EIO),
            Some(file) => match (file.page_offset, file.size) {
                (None, _) => Err(SystemError::EIO),
                (Some(_), Err(e)) => Err(e),
                (Some(_), Ok(size)) => if size <= self.file_page(addr) * PAGE_SIZE
                    || !file.has_page_cache {
                    Err(SystemError::EIO)
                } else {
                    Ok(self.file_page(addr) as usize)
                },
            },
        }
    }

    /// Finds the page of the file that has to be brought into memory for an access.
    pub fn prefault_file_backing(&self, addr: usize) -> (res: Result<usize, SystemError>)
        requires
            self.wf(),
            self.contains(addr),
        ensures
            res == self.backing_page(addr),
    {
        let file = match self.file {
            Some(file) => file,
            None => {
                return Err(SystemError::EIO);
            },
        };
        let base_pgoff: usize = match file.page_offset {
            Some(page) => page,
            None => {
                return Err(SystemError::EIO);
            },
        };
        proof {
            vstd::arithmetic::div_mod::lemma_div_is_ordered(
                addr - self.start,
                self.end - self.start,
                PAGE_SIZE as int,
            );
        }
        let page_index: usize = base_pgoff + (addr - self.start) / PAGE_SIZE;
        let size: i64 = match file.size {
            Ok(size) => size,
            Err(e) => {
                return Err(e);
            },
        };
        let first: u128 = page_index as u128 * PAGE_SIZE as u128;
        if size <= 0 || first >= size as u128 {
            return Err(SystemError::EIO);
        }
        if !file.has_page_cache {
            return Err(SystemError::EIO);
        }
        Ok(page_index)
    }
}

/// A page that is in memory.
#[derive(Debug, Clone, Copy)]
pub struct PageEntry {
    /// The number of the page in the address space.
    pub page: usize,
    /// The physical address of the page.
    pub frame: usize,
    pub writable: bool,
}

/// An address space.
#[derive(Debug)]
pub struct AddressSpace {
    /// What is mapped.
    pub vmas: Vec<Vma>,
    /// The pages that are in memory.
    pub pages: Vec<PageEntry>,
    /// How far the stack may grow, where there is one.
    pub stack_limit: Option<usize>,
    /// The address space is still in use by something that can take page faults.
    pub attached: bool,
}

/// The page entry for a page, if the page is in memory.
pub open spec fn lookup(pages: Seq<PageEntry>, page: usize) -> Option<PageEntry>
    decreases pages.len(),
{
    if pages.len() == 0 {
        None
    } else if pages.first().page == page {
        Some(pages.first())
    } else {
        lookup(pages.skip(1), page)
    }
}

/// An address space as a mathematical value.
#[verifier::ext_equal]
pub struct AddressSpaceView {
    pub vmas: Seq<Vma>,
    pub pages: Seq<PageEntry>,
    pub stack_limit: Option<usize>,
    pub attached: bool,
}

impl View for AddressSpace {
    type V = AddressSpaceView;

    open spec fn view(&self) -> AddressSpaceView {
        AddressSpaceView {
            vmas: self.vmas@,
            pages: self.pages@,
            stack_limit: self.stack_limit,
            attached: self.attached,
        }
    }
}

impl AddressSpaceView {
    /// No two ranges overlap, and pages are where pages can be.
    pub open spec fn wf(self) -> bool {
        &&& forall|i: int| 0 <= i < self.vmas.len() ==> (#[trigger] self.vmas[i]).wf()
        &&& forall|i: int, j: int|
            0 <= i < j < self.vmas.len() ==> (#[trigger] self.vmas[i]).end <= (
            #[trigger] self.vmas[j]).start || self.vmas[j].end <= self.vmas[i].start
        &&& forall|i: int|
            0 <= i < self.pages.len() ==> (#[trigger] self.pages[i]).frame % PAGE_SIZE == 0
    }

    /// Whether an address is mapped.
    pub open spec fn covers(self, addr: usize) -> bool {
        exists|i: int| 0 <= i < self.vmas.len() && (#[trigger] self.vmas[i]).contains(addr)
    }

    /// Whether a range is the one that contains an address, or if there is none the next one
    /// above it.
    pub open spec fn is_nearest(self, addr: usize, found: Option<Vma>) -> bool {
        match found {
            Some(v) => {
                &&& self.vmas.contains(v)
                &&& v.contains(addr) || (v.start > addr && forall|i: int|
                    0 <= i < self.vmas.len() ==> !(#[trigger] self.vmas[i]).contains(addr) && (
                    self.vmas[i].start > addr ==> v.start <= self.vmas[i].start))
            },
            None => forall|i: int|
                0 <= i < self.vmas.len() ==> !(#[trigger] self.vmas[i]).contains(addr)
                    && self.vmas[i].start <= addr,
        }
    }

    /// The range that contains an address, or if there is none the next one above it.
    pub open spec fn nearest(self, addr: usize) -> Option<Vma> {
        choose|found: Option<Vma>| self.is_nearest(addr, found)
    }

    /// There is one nearest range only.
    pub proof fn lemma_nearest(self, addr: usize, found: Option<Vma>)
        requires
            self.wf(),
            self.is_nearest(addr, found),
        ensures
            self.nearest(addr) == found,
            self.covers(addr) <==> found is Some && found->Some_0.contains(addr),
    {
        let other = self.nearest(addr);
        assert(self.is_nearest(addr, other));
        if let Some(v) = found {
            let i = choose|i: int| 0 <= i < self.vmas.len() && self.vmas[i] == v;
            assert(self.vmas[i].wf());
            if let Some(w) = other {
                let j = choose|j: int| 0 <= j < self.vmas.len() && self.vmas[j] == w;
                assert(self.vmas[j].wf());
                if i < j {
                    assert(self.vmas[i].end <= self.vmas[j].start || self.vmas[j].end
                        <= self.vmas[i].start);
                } else if j < i {
                    assert(self.vmas[j].end <= self.vmas[i].start || self.vmas[i].end
                        <= self.vmas[j].start);
                }
            }
        } else if let Some(w) = other {
            let j = choose|j: int| 0 <= j < self.vmas.len() && self.vmas[j] == w;
            assert(self.vmas[j].wf());
        }
    }

    /// The page entry for an address, if its page is in memory.
    pub open spec fn translate(self, addr: usize) -> Option<PageEntry> {
        lookup(self.pages, (addr / PAGE_SIZE) as usize)
    }

    /// Where in memory an address is, if it can be accessed without a page fault.
    pub open spec fn reachable(self, addr: usize, write: bool) -> Option<usize> {
        match self.translate(addr) {
            Some(entry) => if self.covers(addr) && (!write || entry.writable) {
                Some((entry.frame + addr % PAGE_SIZE) as usize)
            } else {
                None
            },
            None => None,
        }
    }
}

/// An entry that is found is one of the entries, for that page.
pub proof fn lemma_lookup(pages: Seq<PageEntry>, page: usize)
    ensures
        lookup(pages, page) matches Some(entry) ==> pages.contains(entry) && entry.page == page,
    decreases pages.len(),
{
    if pages.len() != 0 {
        if pages.first().page == page {
            assert(pages[0] == pages.first());
        } else {
            lemma_lookup(pages.skip(1), page);
            if let Some(entry) = lookup(pages.skip(1), page) {
                let i = choose|i: int| 0 <= i < pages.skip(1).len() && pages.skip(1)[i] == entry;
                assert(pages[i + 1] == entry);
            }
        }
    }
}

impl AddressSpace {
    /// Finds the range that contains an address, or if there is none the next one above it.
    pub fn find_nearest(&self, addr: usize) -> (found: Option<Vma>)
        requires
            self@.wf(),
        ensures
            found == self@.nearest(addr),
            self@.is_nearest(addr, found),
            self@.covers(addr) <==> found is Some && found->Some_0.contains(addr),
    {
        let mut found: Option<Vma> = None;
        let mut i: usize = 0;
        while i < self.vmas.len()
            invariant
                i <= self.vmas.len(),
                self@.wf(),
                match found {
                    Some(v) => {
                        &&& self@.vmas.contains(v)
                        &&& v.start > addr
                        &&& forall|j: int|
                            0 <= j < i ==> !(#[trigger] self@.vmas[j]).contains(addr) && (
                            self@.vmas[j].start > addr ==> v.start <= self@.vmas[j].start)
                    },
                    None => forall|j: int|
                        0 <= j < i ==> !(#[trigger] self@.vmas[j]).contains(addr)
                            && self@.vmas[j].start <= addr,
                },
            decreases self.vmas.len() - i,
        {
            let v = self.vmas[i];
            assert(self@.vmas[i as int] == v);
            if v.contains(addr) {
                proof {
                    self@.lemma_nearest(addr, Some(v));
                }
                return Some(v);
            }
            if v.start > addr {
                match found {
                    Some(best) => if v.start < best.start {
                        found = Some(v);
                    },
                    None => {
                        found = Some(v);
                    },
                }
            }
            i = i + 1;
        }
        proof {
            self@.lemma_nearest(addr, found);
        }
        found
    }

    /// Finds the page entry for an address.
    pub fn translate(&self, addr: usize) -> (entry: Option<PageEntry>)
        ensures
            entry == self@.translate(addr),
    {
        let page: usize = addr / PAGE_SIZE;
        let mut i: usize = 0;
        proof {
            assert(self@.pages.skip(0) =~= self@.pages);
        }
        while i < self.pages.len()
            invariant
                i <= self.pages.len(),
                page == addr / PAGE_SIZE,
                lookup(self@.pages, page) == lookup(self@.pages.skip(i as int), page),
            decreases self.pages.len() - i,
        {
            assert(self@.pages.skip(i as int).skip(1) =~= self@.pages.skip(i + 1));
            assert(self@.pages.skip(i as int).first() == self@.pages[i as int]);
            if self.pages[i].page == page {
                return Some(self.pages[i]);
            }
            i = i + 1;
        }
        None
    }
}

/// The entry that is found for a page is the first one for it, and none is found only if there
/// is none.
pub proof fn law_lookup_finds_the_first_entry(pages: Seq<PageEntry>, page: usize)
    ensures
        forall|k: int|
            #![trigger pages[k]]
            0 <= k < pages.len() && pages[k].page == page && (forall|j: int|
                0 <= j < k ==> (#[trigger] pages[j]).page != page) ==> lookup(pages, page) == Some(
                pages[k],
            ),
        (forall|k: int| 0 <= k < pages.len() ==> (#[trigger] pages[k]).page != page) ==> lookup(
            pages,
            page,
        ) is None,
    decreases pages.len(),
{
    if pages.len() > 0 {
        let rest = pages.skip(1);
        law_lookup_finds_the_first_entry(rest, page);
        assert(pages.first() == pages[0]);
        assert forall|j: int| 0 <= j < rest.len() implies #[trigger] rest[j] == pages[j + 1] by {}
        assert forall|k: int|
            #![trigger pages[k]]
            0 <= k < pages.len() && pages[k].page == page && (forall|j: int|
                0 <= j < k ==> (#[trigger] pages[j]).page != page) implies lookup(pages, page)
            == Some(pages[k]) by {
            if k > 0 {
                assert(pages[0].page != page);
                assert(rest[k - 1] == pages[k]);
                assert forall|j: int| 0 <= j < k - 1 implies (#[trigger] rest[j]).page != page by {
                    assert(pages[j + 1].page != page);
                }
            }
        }
        if forall|k: int| 0 <= k < pages.len() ==> (#[trigger] pages[k]).page != page {
            assert(pages[0].page != page);
            assert forall|j: int| 0 <= j < rest.len() implies (#[trigger] rest[j]).page != page by {
                assert(pages[j + 1].page != page);
            }
        }
    }
}

} // verus!
