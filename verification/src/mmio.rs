use vstd::prelude::*;

verus! {

/// The address of a memory-mapped register or register block holding
/// values of `size` bytes each.
#[allow(clippy::upper_case_acronyms)]
#[derive(Debug, Clone, Copy, PartialEq, Eq, Structural)]
pub struct MMIO {
    pub addr: usize,
    pub size: usize,
}

impl MMIO {
    /// The register at `addr` of `size` bytes.
    pub fn new(addr: usize, size: usize) -> (r: Self)
        ensures
            r.addr == addr,
            r.size == size,
    {
        MMIO { addr, size }
    }

    /// The register `count` values further on.
    pub fn add(&self, count: usize) -> (r: Self)
        requires
            self.addr + count * self.size <= usize::MAX,
        ensures
            r.addr == self.addr + count * self.size,
            r.size == self.size,
    {
        proof {
            assert(count * self.size <= usize::MAX) by (nonlinear_arith)
                requires
                    self.addr + count * self.size <= usize::MAX,
                    self.addr >= 0,
            ;
        }
        MMIO { addr: self.addr + count * self.size, size: self.size }
    }

    /// The same address seen as a register of `size` bytes.
    pub fn new_type(&self, size: usize) -> (r: Self)
        ensures
            r.addr == self.addr,
            r.size == size,
    {
        MMIO { addr: self.addr, size }
    }

    /// A register of `size` bytes `offset` bytes further on.
    pub fn new_type_with_offset(&self, offset: usize, size: usize) -> (r: Self)
        requires
            self.addr + offset <= usize::MAX,
        ensures
            r.addr == self.addr + offset,
            r.size == size,
    {
        MMIO { addr: self.addr + offset, size }
    }

    /// The register of element `index` of an array of `length` elements of
    /// `elem_size` bytes; the index must be in bounds.
    pub fn get_index(&self, index: usize, length: usize, elem_size: usize) -> (r: Self)
        requires
            index < length,
            self.addr + index * elem_size <= usize::MAX,
        ensures
            r.addr == self.addr + index * elem_size,
            r.size == elem_size,
    {
        proof {
            assert(index * elem_size <= usize::MAX) by (nonlinear_arith)
                requires
                    self.addr + index * elem_size <= usize::MAX,
                    self.addr >= 0,
            ;
        }
        MMIO { addr: self.addr + index * elem_size, size: elem_size }
    }
}

} // verus!
