use vstd::prelude::*;

use crate::pointer::{ConstPtr, MutPtr};

use crate::util::align_up_spec;

verus! {

/// Number of bits of the offset inside a page.
pub const PAGE_SHIFT: usize = 12;

/// Mask of the offset inside a page.
pub const PAGE_OFFSET_MASK: usize = 0xFFF;

/// Physical memory address.
#[derive(Clone, Copy, Debug, PartialEq, Eq, Structural, PartialOrd, Ord)]
pub struct PhysAddr(pub usize);

/// Virtual memory address.
#[derive(Clone, Copy, Debug, PartialEq, Eq, Structural, PartialOrd, Ord)]
pub struct VirtAddr(pub usize);

/// The Sv39 virtual page number index of `addr` at page-table `level`.
pub open spec fn vpn_spec(addr: usize, level: u8) -> usize {
    if level == 0 {
        ((addr as nat / 0x1000) % 512) as usize
    } else if level == 1 {
        ((addr as nat / 0x20_0000) % 512) as usize
    } else {
        ((addr as nat / 0x4000_0000) % 512) as usize
    }
}

proof fn lemma_page_bits(a: usize)
    ensures
        a & 0xFFF == a % 4096,
        a & !0xFFFusize == a - a % 4096,
        a >> 12usize == a / 4096,
{
    assert(a & 0xFFF == a % 4096 && a & !0xFFFusize == a - a % 4096 && a >> 12usize == a / 4096)
        by (bit_vector);
}

proof fn lemma_page_shift_left(n: usize)
    ensures
        n * 4096 <= usize::MAX ==> n << 12usize == n * 4096,
{
    if n * 4096 <= usize::MAX {
        vstd::arithmetic::power2::lemma2_to64();
        vstd::bits::lemma_usize_shl_is_mul(n, 12);
    }
}

proof fn lemma_align_up_page(a: usize)
    requires
        a + 0xFFF <= usize::MAX,
    ensures
        ((a + 0xFFF) as usize) & !0xFFFusize == align_up_spec(a as nat, 4096),
{
    let b = (a + 0xFFF) as usize;
    lemma_page_bits(b);
    assert(b - b % 4096 == align_up_spec(a as nat, 4096));
}

proof fn lemma_vpn(a: usize)
    ensures
        (a >> 12usize) & 0x1FF == vpn_spec(a, 0),
        (a >> 21usize) & 0x1FF == vpn_spec(a, 1),
        (a >> 30usize) & 0x1FF == vpn_spec(a, 2),
{
    assert((a >> 12usize) & 0x1FF == (a / 0x1000) % 512 && (a >> 21usize) & 0x1FF == (a
        / 0x20_0000) % 512 && (a >> 30usize) & 0x1FF == (a / 0x4000_0000) % 512) by (bit_vector);
}

impl PhysAddr {
    /// Wraps a raw physical address.
    pub fn new(addr: usize) -> (r: Self)
        ensures
            r.0 == addr,
    {
        PhysAddr(addr)
    }

    /// The address zero.
    pub fn zero() -> (r: Self)
        ensures
            r.0 == 0,
    {
        PhysAddr(0)
    }

    /// The raw address.
    pub fn as_usize(self) -> (r: usize)
        ensures
            r == self.0,
    {
        self.0
    }

    /// The address as a pointer to read through.
    pub fn as_ptr(self) -> (r: ConstPtr)
        ensures
            r.0 == self.0,
    {
        ConstPtr(self.0)
    }

    /// The address as a pointer to write through.
    pub fn as_mut_ptr(self) -> (r: MutPtr)
        ensures
            r.0 == self.0,
    {
        MutPtr(self.0)
    }

    /// The address of the first byte of physical page `ppn` (bits shifted out
    /// above the word are lost).
    pub fn from_page_number(ppn: usize) -> (r: Self)
        ensures
            r.0 == ppn << 12usize,
            ppn * 4096 <= usize::MAX ==> r.0 == ppn * 4096,
    {
        proof {
            lemma_page_shift_left(ppn);
        }
        PhysAddr(ppn << 12)
    }

    /// The number of the page that holds this address.
    pub fn page_number(self) -> (r: usize)
        ensures
            r == self.0 / 4096,
    {
        proof {
            lemma_page_bits(self.0);
        }
        self.0 >> 12
    }

    /// Whether the address is the start of a page.
    pub fn is_page_aligned(self) -> (r: bool)
        ensures
            r == (self.0 % 4096 == 0),
    {
        proof {
            lemma_page_bits(self.0);
        }
        self.0 & 0xFFF == 0
    }

    /// The start of the page that holds this address.
    pub fn align_down(self) -> (r: Self)
        ensures
            r.0 == self.0 - self.0 % 4096,
    {
        proof {
            lemma_page_bits(self.0);
        }
        PhysAddr(self.0 & !0xFFF)
    }

    /// The first page start at or above this address.
    pub fn align_up(self) -> (r: Self)
        requires
            self.0 + 0xFFF <= usize::MAX,
        ensures
            r.0 == align_up_spec(self.0 as nat, 4096),
    {
        proof {
            lemma_align_up_page(self.0);
        }
        PhysAddr((self.0 + 0xFFF) & !0xFFF)
    }

    /// The address `offset` bytes further.
    pub fn add(self, offset: usize) -> (r: Self)
        requires
            self.0 + offset <= usize::MAX,
        ensures
            r.0 == self.0 + offset,
    {
        PhysAddr(self.0 + offset)
    }

    /// The address `offset` bytes before.
    pub fn sub(self, offset: usize) -> (r: Self)
        requires
            offset <= self.0,
        ensures
            r.0 == self.0 - offset,
    {
        PhysAddr(self.0 - offset)
    }

    /// The signed distance from `other` to `self`, both read as signed words.
    pub fn offset_from(self, other: Self) -> (r: isize)
        requires
            isize::MIN <= (self.0 as isize) - (other.0 as isize) <= isize::MAX,
        ensures
            r == (self.0 as isize) - (other.0 as isize),
            self.0 <= isize::MAX && other.0 <= isize::MAX ==> r == self.0 - other.0,
    {
        self.0 as isize - other.0 as isize
    }
}

impl VirtAddr {
    /// Wraps a raw virtual address.
    pub fn new(addr: usize) -> (r: Self)
        ensures
            r.0 == addr,
    {
        VirtAddr(addr)
    }

    /// The address zero.
    pub fn zero() -> (r: Self)
        ensures
            r.0 == 0,
    {
        VirtAddr(0)
    }

    /// The raw address.
    pub fn as_usize(self) -> (r: usize)
        ensures
            r == self.0,
    {
        self.0
    }

    /// The address as a pointer to read through.
    pub fn as_ptr(self) -> (r: ConstPtr)
        ensures
            r.0 == self.0,
    {
        ConstPtr(self.0)
    }

    /// The address as a pointer to write through.
    pub fn as_mut_ptr(self) -> (r: MutPtr)
        ensures
            r.0 == self.0,
    {
        MutPtr(self.0)
    }

    /// The address of the first byte of virtual page `vpn` (bits shifted out
    /// above the word are lost).
    pub fn from_page_number(vpn: usize) -> (r: Self)
        ensures
            r.0 == vpn << 12usize,
            vpn * 4096 <= usize::MAX ==> r.0 == vpn * 4096,
    {
        proof {
            lemma_page_shift_left(vpn);
        }
        VirtAddr(vpn << 12)
    }

    /// The number of the page that holds this address.
    pub fn page_number(self) -> (r: usize)
        ensures
            r == self.0 / 4096,
    {
        proof {
            lemma_page_bits(self.0);
        }
        self.0 >> 12
    }

    /// Whether the address is the start of a page.
    pub fn is_page_aligned(self) -> (r: bool)
        ensures
            r == (self.0 % 4096 == 0),
    {
        proof {
            lemma_page_bits(self.0);
        }
        self.0 & 0xFFF == 0
    }

    /// The start of the page that holds this address.
    pub fn align_down(self) -> (r: Self)
        ensures
            r.0 == self.0 - self.0 % 4096,
    {
        proof {
            lemma_page_bits(self.0);
        }
        VirtAddr(self.0 & !0xFFF)
    }

    /// The first page start at or above this address.
    pub fn align_up(self) -> (r: Self)
        requires
            self.0 + 0xFFF <= usize::MAX,
        ensures
            r.0 == align_up_spec(self.0 as nat, 4096),
    {
        proof {
            lemma_align_up_page(self.0);
        }
        VirtAddr((self.0 + 0xFFF) & !0xFFF)
    }

    /// The address `offset` bytes further.
    pub fn add(self, offset: usize) -> (r: Self)
        requires
            self.0 + offset <= usize::MAX,
        ensures
            r.0 == self.0 + offset,
    {
        VirtAddr(self.0 + offset)
    }

    /// The address `offset` bytes before.
    pub fn sub(self, offset: usize) -> (r: Self)
        requires
            offset <= self.0,
        ensures
            r.0 == self.0 - offset,
    {
        VirtAddr(self.0 - offset)
    }

    /// The signed distance from `other` to `self`, both read as signed words.
    pub fn offset_from(self, other: Self) -> (r: isize)
        requires
            isize::MIN <= (self.0 as isize) - (other.0 as isize) <= isize::MAX,
        ensures
            r == (self.0 as isize) - (other.0 as isize),
            self.0 <= isize::MAX && other.0 <= isize::MAX ==> r == self.0 - other.0,
    {
        self.0 as isize - other.0 as isize
    }

    /// The Sv39 virtual page number index for page-table level 0, 1 or 2.
    pub fn vpn_level(self, level: u8) -> (r: usize)
        requires
            level < 3,
        ensures
            r == vpn_spec(self.0, level),
            r < 512,
    {
        proof {
            lemma_vpn(self.0);
        }
        let shift: usize = 12 + (level as usize) * 9;
        (self.0 >> shift) & 0x1FF
    }

    /// The offset of the address inside its page.
    pub fn page_offset(self) -> (r: usize)
        ensures
            r == self.0 % 4096,
    {
        proof {
            lemma_page_bits(self.0);
        }
        self.0 & 0xFFF
    }
}

} // verus!
