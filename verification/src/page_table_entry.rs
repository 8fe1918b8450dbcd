use vstd::prelude::*;

use crate::address::PhysAddr;
use crate::elf::ProgramHeaderFlags;
use crate::util::{bit, bits_at, get_bit, get_multiple_bits, set_multiple_bits, set_or_clear_bit};

verus! {

/// Access rights of a page-table entry (the X, W and R bits).  An entry with
/// no right set points to the next level of the table.
#[derive(Debug, Clone, Copy, PartialEq, Eq, Structural)]
pub enum XWRMode {
    PointerToNextLevel,
    ReadOnly,
    ReadWrite,
    ExecuteOnly,
    ReadExecute,
    ReadWriteExecute,
}

/// The three bits (X W R, most significant first) of a mode.
pub open spec fn xwr_bits_of(mode: XWRMode) -> u8 {
    match mode {
        XWRMode::PointerToNextLevel => 0b000,
        XWRMode::ReadOnly => 0b001,
        XWRMode::ReadWrite => 0b011,
        XWRMode::ExecuteOnly => 0b100,
        XWRMode::ReadExecute => 0b101,
        XWRMode::ReadWriteExecute => 0b111,
    }
}

/// The bit patterns that name a mode (write without read is reserved).
pub open spec fn is_xwr_pattern(bits: u64) -> bool {
    bits == 0 || bits == 1 || bits == 3 || bits == 4 || bits == 5 || bits == 7
}

/// The mode named by a valid bit pattern.
pub open spec fn xwr_mode_of(bits: u64) -> XWRMode {
    if bits == 1 {
        XWRMode::ReadOnly
    } else if bits == 3 {
        XWRMode::ReadWrite
    } else if bits == 4 {
        XWRMode::ExecuteOnly
    } else if bits == 5 {
        XWRMode::ReadExecute
    } else if bits == 7 {
        XWRMode::ReadWriteExecute
    } else {
        XWRMode::PointerToNextLevel
    }
}

impl XWRMode {
    /// The three bits of this mode.
    pub fn bits(self) -> (r: u8)
        ensures
            r == xwr_bits_of(self),
            is_xwr_pattern(r as u64),
            xwr_mode_of(r as u64) == self,
    {
        match self {
            XWRMode::PointerToNextLevel => 0b000,
            XWRMode::ReadOnly => 0b001,
            XWRMode::ReadWrite => 0b011,
            XWRMode::ExecuteOnly => 0b100,
            XWRMode::ReadExecute => 0b101,
            XWRMode::ReadWriteExecute => 0b111,
        }
    }

    /// The mode named by `value`, which must be one of the six patterns.
    pub fn from_bits(value: u8) -> (r: Self)
        requires
            is_xwr_pattern(value as u64),
        ensures
            r == xwr_mode_of(value as u64),
            xwr_bits_of(r) == value,
    {
        match value {
            0b000 => XWRMode::PointerToNextLevel,
            0b001 => XWRMode::ReadOnly,
            0b011 => XWRMode::ReadWrite,
            0b100 => XWRMode::ExecuteOnly,
            0b101 => XWRMode::ReadExecute,
            _ => XWRMode::ReadWriteExecute,
        }
    }

    /// The mode a program segment is mapped with; write-only and
    /// write-execute segments cannot be mapped.
    pub fn from_program_header_flags(value: ProgramHeaderFlags) -> (r: Self)
        requires
            value != ProgramHeaderFlags::W,
            value != ProgramHeaderFlags::WX,
        ensures
            r == match value {
                ProgramHeaderFlags::RW => XWRMode::ReadWrite,
                ProgramHeaderFlags::RWX => XWRMode::ReadWriteExecute,
                ProgramHeaderFlags::RX => XWRMode::ReadExecute,
                ProgramHeaderFlags::X => XWRMode::ExecuteOnly,
                _ => XWRMode::ReadOnly,
            },
    {
        match value {
            ProgramHeaderFlags::RW => XWRMode::ReadWrite,
            ProgramHeaderFlags::RWX => XWRMode::ReadWriteExecute,
            ProgramHeaderFlags::RX => XWRMode::ReadExecute,
            ProgramHeaderFlags::X => XWRMode::ExecuteOnly,
            _ => XWRMode::ReadOnly,
        }
    }
}

/// Bit positions and masks of an Sv39 page-table entry.
pub const VALID_BIT_POS: usize = 0;
pub const READ_BIT_POS: usize = 1;
pub const WRITE_BIT_POS: usize = 2;
pub const EXECUTE_BIT_POS: usize = 3;
pub const USER_MODE_ACCESSIBLE_BIT_POS: usize = 4;
pub const PHYSICAL_PAGE_BIT_POS: usize = 10;
pub const PHYSICAL_PAGE_BITS: u64 = 0xfffffffffff;

/// Whether the entry is valid.
pub open spec fn pte_valid(e: u64) -> bool {
    bit(e, 0)
}

/// Whether user mode may access the mapped memory.
pub open spec fn pte_user(e: u64) -> bool {
    bit(e, 4)
}

/// The X W R bits of the entry as a number.
pub open spec fn pte_xwr(e: u64) -> u64 {
    bits_at(e, 3, 1)
}

/// The physical page number held by the entry.
pub open spec fn pte_ppn(e: u64) -> u64 {
    bits_at(e, 44, 10)
}

/// The physical address the entry points to.
pub open spec fn pte_address(e: u64) -> u64 {
    ((e >> 10u64) & PHYSICAL_PAGE_BITS) << 12u64
}

/// The entry with its valid bit set to `b`.
pub open spec fn with_validity(e: u64, b: bool) -> u64 {
    if b {
        e | 1u64
    } else {
        e & !1u64
    }
}

/// The entry with its user bit set to `b`.
pub open spec fn with_user(e: u64, b: bool) -> u64 {
    if b {
        e | 16u64
    } else {
        e & !16u64
    }
}

/// The entry with its X W R bits replaced by the low three bits of `m`.
pub open spec fn with_xwr(e: u64, m: u64) -> u64 {
    (e & !14u64) | ((m & 7u64) << 1u64)
}

/// The entry pointing to the page that holds address `a`.
pub open spec fn with_address(e: u64, a: u64) -> u64 {
    (e & !(PHYSICAL_PAGE_BITS << 10u64)) | (((a >> 12u64) & PHYSICAL_PAGE_BITS) << 10u64)
}

/// Setting the valid bit reads back, and leaves the other fields alone.
pub proof fn lemma_validity_roundtrip(e: u64, b: bool)
    ensures
        pte_valid(with_validity(e, b)) == b,
        pte_user(with_validity(e, b)) == pte_user(e),
        pte_xwr(with_validity(e, b)) == pte_xwr(e),
        pte_ppn(with_validity(e, b)) == pte_ppn(e),
{
    assert(pte_valid(e | 1u64) && pte_user(e | 1u64) == pte_user(e) && pte_xwr(e | 1u64) == pte_xwr(
        e,
    ) && pte_ppn(e | 1u64) == pte_ppn(e) && !pte_valid(e & !1u64) && pte_user(e & !1u64)
        == pte_user(e) && pte_xwr(e & !1u64) == pte_xwr(e) && pte_ppn(e & !1u64) == pte_ppn(e))
        by (bit_vector);
}

/// Setting the user bit reads back, and leaves the other fields alone.
pub proof fn lemma_user_roundtrip(e: u64, b: bool)
    ensures
        pte_user(with_user(e, b)) == b,
        pte_valid(with_user(e, b)) == pte_valid(e),
        pte_xwr(with_user(e, b)) == pte_xwr(e),
        pte_ppn(with_user(e, b)) == pte_ppn(e),
{
    assert(pte_user(e | 16u64) && pte_valid(e | 16u64) == pte_valid(e) && pte_xwr(e | 16u64)
        == pte_xwr(e) && pte_ppn(e | 16u64) == pte_ppn(e) && !pte_user(e & !16u64) && pte_valid(
        e & !16u64,
    ) == pte_valid(e) && pte_xwr(e & !16u64) == pte_xwr(e) && pte_ppn(e & !16u64) == pte_ppn(e))
        by (bit_vector);
}

/// Setting the X W R bits reads back, and leaves the other fields alone.
pub proof fn lemma_xwr_roundtrip(e: u64, m: u64)
    requires
        m < 8,
    ensures
        pte_xwr(with_xwr(e, m)) == m,
        pte_valid(with_xwr(e, m)) == pte_valid(e),
        pte_user(with_xwr(e, m)) == pte_user(e),
        pte_ppn(with_xwr(e, m)) == pte_ppn(e),
{
    assert(m < 8 ==> pte_xwr(with_xwr(e, m)) == m && pte_valid(with_xwr(e, m)) == pte_valid(e)
        && pte_user(with_xwr(e, m)) == pte_user(e) && pte_ppn(with_xwr(e, m)) == pte_ppn(e))
        by (bit_vector);
}

/// Setting the address of a page below 2^56 reads back, and leaves the other
/// fields alone.
pub proof fn lemma_address_roundtrip(e: u64, a: u64)
    requires
        a % 4096 == 0,
        a < 0x100_0000_0000_0000,
    ensures
        pte_address(with_address(e, a)) == a,
        pte_valid(with_address(e, a)) == pte_valid(e),
        pte_user(with_address(e, a)) == pte_user(e),
        pte_xwr(with_address(e, a)) == pte_xwr(e),
{
    assert(a % 4096 == 0 && a < 0x100_0000_0000_0000 ==> pte_address(with_address(e, a)) == a
        && pte_valid(with_address(e, a)) == pte_valid(e) && pte_user(with_address(e, a)) == pte_user(
        e,
    ) && pte_xwr(with_address(e, a)) == pte_xwr(e)) by (bit_vector);
}

/// The rights of a mode are the hardware's R, W and X bits: giving an entry
/// a mode sets R (bit 1) exactly for the modes that read, W (bit 2) exactly
/// for those that write and X (bit 3) exactly for those that execute, and
/// leaves the valid, user and address fields alone.
pub proof fn lemma_xwr_rights(e: u64, mode: XWRMode)
    ensures
        bit(with_xwr(e, xwr_bits_of(mode) as u64), 1) == (mode == XWRMode::ReadOnly || mode
            == XWRMode::ReadWrite || mode == XWRMode::ReadExecute || mode == XWRMode::ReadWriteExecute),
        bit(with_xwr(e, xwr_bits_of(mode) as u64), 2) == (mode == XWRMode::ReadWrite || mode
            == XWRMode::ReadWriteExecute),
        bit(with_xwr(e, xwr_bits_of(mode) as u64), 3) == (mode == XWRMode::ExecuteOnly || mode
            == XWRMode::ReadExecute || mode == XWRMode::ReadWriteExecute),
        pte_valid(with_xwr(e, xwr_bits_of(mode) as u64)) == pte_valid(e),
        pte_user(with_xwr(e, xwr_bits_of(mode) as u64)) == pte_user(e),
        pte_ppn(with_xwr(e, xwr_bits_of(mode) as u64)) == pte_ppn(e),
{
    assert({
        &&& !bit(with_xwr(e, 0u64), 1u64) && !bit(with_xwr(e, 0u64), 2u64) && !bit(with_xwr(e, 0u64), 3u64)
        &&& bit(with_xwr(e, 1u64), 1u64) && !bit(with_xwr(e, 1u64), 2u64) && !bit(with_xwr(e, 1u64), 3u64)
        &&& bit(with_xwr(e, 3u64), 1u64) && bit(with_xwr(e, 3u64), 2u64) && !bit(with_xwr(e, 3u64), 3u64)
        &&& !bit(with_xwr(e, 4u64), 1u64) && !bit(with_xwr(e, 4u64), 2u64) && bit(with_xwr(e, 4u64), 3u64)
        &&& bit(with_xwr(e, 5u64), 1u64) && !bit(with_xwr(e, 5u64), 2u64) && bit(with_xwr(e, 5u64), 3u64)
        &&& bit(with_xwr(e, 7u64), 1u64) && bit(with_xwr(e, 7u64), 2u64) && bit(with_xwr(e, 7u64), 3u64)
    }) by (bit_vector);
    lemma_xwr_roundtrip(e, xwr_bits_of(mode) as u64);
}

/// Reading the rights back: the mode an entry's X W R bits name reads
/// exactly when R (bit 1) is set, writes exactly when W (bit 2) is set and
/// executes exactly when X (bit 3) is set.
pub proof fn lemma_xwr_mode_of_rights(e: u64)
    requires
        is_xwr_pattern(pte_xwr(e)),
    ensures
        ({
            let m = xwr_mode_of(pte_xwr(e));
            &&& bit(e, 1) == (m == XWRMode::ReadOnly || m == XWRMode::ReadWrite || m
                == XWRMode::ReadExecute || m == XWRMode::ReadWriteExecute)
            &&& bit(e, 2) == (m == XWRMode::ReadWrite || m == XWRMode::ReadWriteExecute)
            &&& bit(e, 3) == (m == XWRMode::ExecuteOnly || m == XWRMode::ReadExecute || m
                == XWRMode::ReadWriteExecute)
        }),
{
    assert({
        &&& pte_xwr(e) == 0u64 ==> !bit(e, 1u64) && !bit(e, 2u64) && !bit(e, 3u64)
        &&& pte_xwr(e) == 1u64 ==> bit(e, 1u64) && !bit(e, 2u64) && !bit(e, 3u64)
        &&& pte_xwr(e) == 3u64 ==> bit(e, 1u64) && bit(e, 2u64) && !bit(e, 3u64)
        &&& pte_xwr(e) == 4u64 ==> !bit(e, 1u64) && !bit(e, 2u64) && bit(e, 3u64)
        &&& pte_xwr(e) == 5u64 ==> bit(e, 1u64) && !bit(e, 2u64) && bit(e, 3u64)
        &&& pte_xwr(e) == 7u64 ==> bit(e, 1u64) && bit(e, 2u64) && bit(e, 3u64)
    }) by (bit_vector);
}

/// One entry of an Sv39 page table, kept as its raw 64 bits.
#[derive(Debug, Clone, Copy, PartialEq, Eq, Structural)]
pub struct PageTableEntry(pub u64);

impl PageTableEntry {
    /// Sets or clears the valid bit.
    pub fn set_validity(&mut self, is_valid: bool)
        ensures
            final(self).0 == with_validity(old(self).0, is_valid),
    {
        let mut addr = self.0;
        proof {
            lemma_shift_consts();
        }
        set_or_clear_bit(&mut addr, is_valid, VALID_BIT_POS);
        self.0 = addr;
    }

    /// Whether the entry is valid.
    pub fn get_validity(&self) -> (r: bool)
        ensures
            r == pte_valid(self.0),
    {
        get_bit(self.0, VALID_BIT_POS)
    }

    /// Sets or clears the bit that lets user mode access the page.
    pub fn set_user_mode_accessible(&mut self, is_user_mode_accessible: bool)
        ensures
            final(self).0 == with_user(old(self).0, is_user_mode_accessible),
    {
        let mut addr = self.0;
        proof {
            lemma_shift_consts();
        }
        set_or_clear_bit(&mut addr, is_user_mode_accessible, USER_MODE_ACCESSIBLE_BIT_POS);
        self.0 = addr;
    }

    /// Whether user mode may access the page.
    pub fn get_user_mode_accessible(&self) -> (r: bool)
        ensures
            r == pte_user(self.0),
    {
        get_bit(self.0, USER_MODE_ACCESSIBLE_BIT_POS)
    }

    /// Writes the access rights of `mode`.
    pub fn set_xwr_mode(&mut self, mode: XWRMode)
        ensures
            final(self).0 == with_xwr(old(self).0, xwr_bits_of(mode) as u64),
    {
        let ghost e = self.0;
        let m = mode.bits();
        let mut addr = self.0;
        set_multiple_bits(&mut addr, m as u64, 3, READ_BIT_POS);
        proof {
            lemma_with_xwr_bits(e, m as u64);
            crate::util::lemma_bits_equal(addr, with_xwr(e, m as u64));
        }
        self.0 = addr;
    }

    /// The access rights of the entry; its X W R bits must name a mode.
    pub fn get_xwr_mode(&self) -> (r: XWRMode)
        requires
            is_xwr_pattern(pte_xwr(self.0)),
        ensures
            r == xwr_mode_of(pte_xwr(self.0)),
    {
        let bits = get_multiple_bits(self.0, 3, READ_BIT_POS);
        proof {
            lemma_xwr_small(self.0);
        }
        XWRMode::from_bits(bits as u8)
    }

    /// Whether the entry maps a page (rather than pointing to the next level).
    pub fn is_leaf(&self) -> (r: bool)
        requires
            is_xwr_pattern(pte_xwr(self.0)),
        ensures
            r == (pte_xwr(self.0) != 0),
    {
        let mode = self.get_xwr_mode();
        match mode {
            XWRMode::PointerToNextLevel => false,
            _ => true,
        }
    }

    /// Points the entry at the page holding `address` (the next-level table).
    pub fn set_physical_address(&mut self, address: u64)
        ensures
            final(self).0 == with_address(old(self).0, address),
    {
        let mask: u64 = !(PHYSICAL_PAGE_BITS << PHYSICAL_PAGE_BIT_POS as u64);
        let mut bits = self.0;
        bits = bits & mask;
        bits = bits | (((address >> 12u64) & PHYSICAL_PAGE_BITS) << PHYSICAL_PAGE_BIT_POS as u64);
        self.0 = bits;
    }

    /// Points the entry at the page that starts at `address`.
    pub fn set_leaf_address(&mut self, address: PhysAddr)
        requires
            address.0 % 4096 == 0,
        ensures
            final(self).0 == with_address(old(self).0, address.0 as u64),
    {
        let address_usize = address.as_usize();
        self.set_physical_address(address_usize as u64);
    }

    /// The physical address the entry points to.
    pub fn get_physical_address(&self) -> (r: PhysAddr)
        ensures
            r.0 == pte_address(self.0) as usize,
    {
        let a: u64 = ((self.0 >> PHYSICAL_PAGE_BIT_POS as u64) & PHYSICAL_PAGE_BITS) << 12u64;
        PhysAddr::new(a as usize)
    }

    /// The address of the next-level table of a non-leaf entry with a
    /// non-zero address.
    pub fn get_target_page_table(&self) -> (r: usize)
        requires
            is_xwr_pattern(pte_xwr(self.0)),
            pte_xwr(self.0) == 0,
            pte_address(self.0) != 0,
        ensures
            r == pte_address(self.0) as usize,
    {
        let addr = self.get_physical_address();
        addr.as_usize()
    }
}

proof fn lemma_shift_consts()
    ensures
        1u64 << 0u64 == 1u64,
        1u64 << 4u64 == 16u64,
{
    assert(1u64 << 0u64 == 1u64 && 1u64 << 4u64 == 16u64) by (bit_vector);
}

proof fn lemma_xwr_small(e: u64)
    ensures
        pte_xwr(e) < 8,
{
    assert(bits_at(e, 3, 1) < 8) by (bit_vector);
}

proof fn lemma_with_xwr_bits(e: u64, m: u64)
    requires
        m < 8,
    ensures
        forall|i: u64|
            #![trigger bit(with_xwr(e, m), i)]
            i < 64 ==> bit(with_xwr(e, m), i) == if 1 <= i < 4 {
                bit(m, (i - 1) as u64)
            } else {
                bit(e, i)
            },
{
    assert(forall|i: u64|
        #![trigger bit(with_xwr(e, m), i)]
        i < 64 && m < 8 ==> bit(with_xwr(e, m), i) == if 1 <= i && i < 4 {
            bit(m, (i - 1) as u64)
        } else {
            bit(e, i)
        }) by (bit_vector);
}

} // verus!
