use vstd::prelude::*;

use crate::address::VirtAddr;
use crate::page::{Pages, PinnedHeapPages, PAGE_SIZE};
use crate::page_table_entry::XWRMode;
use crate::page_tables::{MappingKind, RootPageTableHolder, UserMapping};
use crate::util::{align_up_page_size, align_up_fits, align_up_spec};

verus! {

/// Pages reserved for the program break.
pub const BRK_PAGES: usize = 4;

/// The program break of a process: the heap end user space moves with `brk`.
#[derive(Debug)]
pub struct Brk {
    brk_start: VirtAddr,
    brk_current: VirtAddr,
    /// One past the end of the area.
    brk_end: VirtAddr,
}

impl Brk {
    /// First address of the area.
    pub closed spec fn start(&self) -> usize {
        self.brk_start.0
    }

    /// The current break.
    pub closed spec fn current(&self) -> usize {
        self.brk_current.0
    }

    /// One past the last address of the area.
    pub closed spec fn end(&self) -> usize {
        self.brk_end.0
    }

    /// A break from explicit bounds (the break starts at `start`).
    pub fn from_bounds(start: VirtAddr, current: VirtAddr, end: VirtAddr) -> (r: Self)
        ensures
            r.start() == start.0,
            r.current() == current.0,
            r.end() == end.0,
    {
        Brk { brk_start: start, brk_current: current, brk_end: end }
    }

    /// Sets up the break area of a program whose data ends at `bss_end`: it
    /// starts at the next page boundary, spans `BRK_PAGES` fresh pages that
    /// are mapped read-write, and the break starts at its beginning.
    pub fn new(bss_end: VirtAddr, page_tables: &mut RootPageTableHolder) -> (r: (PinnedHeapPages, Self))
        requires
            align_up_fits(bss_end.0, PAGE_SIZE),
            align_up_spec(bss_end.0 as nat, PAGE_SIZE as nat) + BRK_PAGES * PAGE_SIZE <= usize::MAX,
        ensures
            ({
                let start = align_up_spec(bss_end.0 as nat, PAGE_SIZE as nat);
                &&& r.1.start() == start
                &&& r.1.current() == start
                &&& r.1.end() == start + BRK_PAGES * PAGE_SIZE
                &&& r.0.bytes() == Seq::new((BRK_PAGES * PAGE_SIZE) as nat, |i: int| 0u8)
                &&& final(page_tables).mappings().len() == old(page_tables).mappings().len() + 1
                &&& final(page_tables).mappings().drop_last() == old(page_tables).mappings()
                &&& final(page_tables).mappings().last().virtual_start == start
                &&& final(page_tables).mappings().last().size == BRK_PAGES * PAGE_SIZE
                &&& final(page_tables).mappings().last().mode == XWRMode::ReadWrite
                &&& final(page_tables).mappings().last().kind == MappingKind::Brk
                &&& final(page_tables).mappings().last().physical_start == r.0.address()
                &&& r.0.address() % PAGE_SIZE == 0
            }),
    {
        let brk_size = Pages::new(BRK_PAGES);
        let brk_start = VirtAddr::new(align_up_page_size(bss_end.as_usize()));
        let pages = PinnedHeapPages::new_pages(brk_size);
        let physical = pages.addr();
        page_tables.map_userspace(
            brk_start.as_usize(),
            physical,
            pages.size(),
            XWRMode::ReadWrite,
            MappingKind::Brk,
        );
        proof {
            assert(final(page_tables).mappings().drop_last() =~= old(page_tables).mappings());
        }
        let brk_end = brk_start.add(brk_size.as_bytes());
        (pages, Brk { brk_start, brk_current: brk_start, brk_end })
    }

    /// The break of a program without data: the area `[0, 1)`.
    pub fn empty() -> (r: Self)
        ensures
            r.start() == 0,
            r.current() == 0,
            r.end() == 1,
    {
        Brk { brk_start: VirtAddr::zero(), brk_current: VirtAddr::zero(), brk_end: VirtAddr::new(1) }
    }

    /// Moves the break to `brk` when it lies inside the area, and returns the
    /// break (moved or not).
    pub fn brk(&mut self, brk: VirtAddr) -> (r: VirtAddr)
        ensures
            final(self).start() == old(self).start(),
            final(self).end() == old(self).end(),
            old(self).start() <= brk.0 < old(self).end() ==> final(self).current() == brk.0,
            !(old(self).start() <= brk.0 < old(self).end()) ==> final(self).current() == old(
                self,
            ).current(),
            r.0 == final(self).current(),
    {
        if brk.as_usize() >= self.brk_start.as_usize() && brk.as_usize() < self.brk_end.as_usize() {
            self.brk_current = brk;
        }
        self.brk_current
    }
}

} // verus!
