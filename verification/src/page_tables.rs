use vstd::prelude::*;

use crate::page_table_entry::XWRMode;

verus! {

/// What a user mapping is for.
#[derive(Debug, Clone, Copy, PartialEq, Eq, Structural)]
pub enum MappingKind {
    Stack,
    Load,
    Brk,
    Mmap,
}

/// A region of a process's address space backed by kernel pages.
#[derive(Debug, Clone, Copy, PartialEq, Eq, Structural)]
pub struct UserMapping {
    pub virtual_start: usize,
    pub physical_start: usize,
    pub size: usize,
    pub mode: XWRMode,
    pub kind: MappingKind,
}

/// The user part of a process's page tables, kept as the list of regions
/// mapped so far (the hardware table is written from it).
pub struct RootPageTableHolder {
    mappings: Vec<UserMapping>,
}

impl RootPageTableHolder {
    /// The regions mapped so far, in the order they were mapped.
    pub closed spec fn mappings(&self) -> Seq<UserMapping> {
        self.mappings@
    }

    /// An address space with no user region.
    pub fn new() -> (r: Self)
        ensures
            r.mappings() == Seq::<UserMapping>::empty(),
    {
        RootPageTableHolder { mappings: Vec::new() }
    }

    /// Maps `size` bytes at `virtual_start` to `physical_start` with `mode`.
    pub fn map_userspace(
        &mut self,
        virtual_start: usize,
        physical_start: usize,
        size: usize,
        mode: XWRMode,
        kind: MappingKind,
    )
        ensures
            final(self).mappings() == old(self).mappings().push(
                UserMapping { virtual_start, physical_start, size, mode, kind },
            ),
    {
        self.mappings.push(UserMapping { virtual_start, physical_start, size, mode, kind });
    }

    /// The number of regions mapped.
    pub fn mapping_count(&self) -> (r: usize)
        ensures
            r == self.mappings().len(),
    {
        self.mappings.len()
    }

    /// The region mapped `i`-th.
    pub fn mapping(&self, i: usize) -> (r: UserMapping)
        requires
            i < self.mappings().len(),
        ensures
            r == self.mappings()[i as int],
    {
        self.mappings[i]
    }

    /// Whether some region overlaps `[start, end)`.
    pub fn is_mapped(&self, start: usize, end: usize) -> (r: bool)
        ensures
            r == exists|i: int|
                0 <= i < self.mappings().len() && self.mappings()[i].virtual_start < end && start
                    < self.mappings()[i].virtual_start + self.mappings()[i].size,
    {
        let mut i: usize = 0;
        while i < self.mappings.len()
            invariant
                i <= self.mappings@.len(),
                forall|j: int|
                    0 <= j < i ==> !(self.mappings@[j].virtual_start < end && start
                        < self.mappings@[j].virtual_start + self.mappings@[j].size),
            decreases self.mappings@.len() - i,
        {
            let m = self.mappings[i];
            if m.virtual_start < end && (start as u128) < (m.virtual_start as u128) + (m.size as u128) {
                return true;
            }
            i = i + 1;
        }
        false
    }
}

} // verus!
