use lib::address::{PhysAddr, VirtAddr};
use lib::elf::ProgramHeaderFlags;
use lib::heap::{
    allocated_size, AlignedSizeWithMetadata, AllocStep, DeallocStep, FreeBlock, Heap, Layout, DATA_ALIGNMENT,
    METADATA_SIZE, MINIMUM_SIZE,
};
use lib::page::{PagesAsSlice, PinnedHeapPages, PAGE_SIZE};
use lib::page_table_entry::{PageTableEntry, XWRMode};

#[test]
fn test_phys_addr_basic() {
    let addr = PhysAddr::new(0x8000_0000);
    assert_eq!(addr.as_usize(), 0x8000_0000);
    assert_eq!(PhysAddr::zero().as_usize(), 0);
}

#[test]
fn test_virt_addr_basic() {
    let addr = VirtAddr::new(0x1000);
    assert_eq!(addr.as_usize(), 0x1000);
    assert_eq!(VirtAddr::zero().as_usize(), 0);
}

#[test]
fn test_page_number_conversion() {
    let addr = PhysAddr::from_page_number(0x8000);
    assert_eq!(addr.as_usize(), 0x8000 << 12);
    assert_eq!(addr.page_number(), 0x8000);
    let vaddr = VirtAddr::from_page_number(0x1000);
    assert_eq!(vaddr.as_usize(), 0x1000 << 12);
    assert_eq!(vaddr.page_number(), 0x1000);
}

#[test]
fn test_alignment() {
    let addr = PhysAddr::new(0x8000_1234);
    assert!(!addr.is_page_aligned());
    assert_eq!(addr.align_down().as_usize(), 0x8000_1000);
    assert_eq!(addr.align_up().as_usize(), 0x8000_2000);
    let aligned = PhysAddr::new(0x8000_0000);
    assert!(aligned.is_page_aligned());
    assert_eq!(aligned.align_down().as_usize(), 0x8000_0000);
    assert_eq!(aligned.align_up().as_usize(), 0x8000_0000);
}

#[test]
fn test_arithmetic() {
    let addr = PhysAddr::new(0x8000_0000);
    assert_eq!(addr.add(0x1000).as_usize(), 0x8000_1000);
    assert_eq!(addr.sub(0x1000).as_usize(), 0x7FFF_F000);
    let other = PhysAddr::new(0x8000_2000);
    assert_eq!(other.offset_from(addr), 0x2000);
    assert_eq!(addr.offset_from(other), -0x2000);
}

#[test]
fn test_vpn_level() {
    let addr = VirtAddr::new(0x0000_007F_FFFF_FFFF);
    assert_eq!(addr.vpn_level(2), 0x1FF);
    assert_eq!(addr.vpn_level(1), 0x1FF);
    assert_eq!(addr.vpn_level(0), 0x1FF);
    let addr2 = VirtAddr::new(0x0000_0000_0040_1000);
    assert_eq!(addr2.vpn_level(2), 0);
    assert_eq!(addr2.vpn_level(1), 2);
    assert_eq!(addr2.vpn_level(0), 1);
}

#[test]
fn test_page_offset() {
    assert_eq!(VirtAddr::new(0x1234).page_offset(), 0x234);
    assert_eq!(VirtAddr::new(0x1000).page_offset(), 0);
}

#[test]
fn test_ordering() {
    let a1 = PhysAddr::new(0x1000);
    let a2 = PhysAddr::new(0x2000);
    let a3 = PhysAddr::new(0x1000);
    assert!(a1 < a2);
    assert_eq!(a1, a3);
    let v1 = VirtAddr::new(0x1000);
    let v2 = VirtAddr::new(0x2000);
    assert!(v1 < v2);
}

#[test]
fn test_as_mut_ptr_keeps_address() {
    assert_eq!(PhysAddr::new(0x8000_0000).as_mut_ptr().0, 0x8000_0000);
    assert_eq!(VirtAddr::new(0x4000).as_mut_ptr().0, 0x4000);
}

#[test]
fn page_table_entry_validity_bit() {
    let mut entry = PageTableEntry(0);
    assert!(!entry.get_validity());
    entry.set_validity(true);
    assert!(entry.get_validity());
    entry.set_validity(false);
    assert!(!entry.get_validity());
}

#[test]
fn page_table_entry_xwr_modes() {
    let modes = [
        XWRMode::PointerToNextLevel,
        XWRMode::ReadOnly,
        XWRMode::ReadWrite,
        XWRMode::ExecuteOnly,
        XWRMode::ReadExecute,
        XWRMode::ReadWriteExecute,
    ];
    for mode in modes {
        let mut entry = PageTableEntry(0);
        entry.set_xwr_mode(mode);
        assert_eq!(entry.get_xwr_mode(), mode);
    }
}

#[test]
fn page_table_entry_user_mode_bit() {
    let mut entry = PageTableEntry(0);
    assert!(!entry.get_user_mode_accessible());
    entry.set_user_mode_accessible(true);
    assert!(entry.get_user_mode_accessible());
    entry.set_user_mode_accessible(false);
    assert!(!entry.get_user_mode_accessible());
}

#[test]
fn page_table_entry_bits_are_independent() {
    let mut entry = PageTableEntry(0);
    entry.set_validity(true);
    entry.set_xwr_mode(XWRMode::ReadWrite);
    entry.set_user_mode_accessible(true);
    assert!(entry.get_validity());
    assert_eq!(entry.get_xwr_mode(), XWRMode::ReadWrite);
    assert!(entry.get_user_mode_accessible());
}

#[test]
fn page_table_entry_is_leaf() {
    let mut entry = PageTableEntry(0);
    entry.set_xwr_mode(XWRMode::PointerToNextLevel);
    assert!(!entry.is_leaf());
    for mode in [
        XWRMode::ReadOnly,
        XWRMode::ReadWrite,
        XWRMode::ExecuteOnly,
        XWRMode::ReadExecute,
        XWRMode::ReadWriteExecute,
    ] {
        entry.set_xwr_mode(mode);
        assert!(entry.is_leaf());
    }
}

#[test]
fn page_table_entry_leaf_address_roundtrip() {
    let mut entry = PageTableEntry(0);
    let addr = PhysAddr::new(0x8020_0000);
    entry.set_leaf_address(addr);
    assert_eq!(entry.get_physical_address(), addr);
}

#[test]
fn page_table_entry_leaf_address_preserves_low_bits() {
    let mut entry = PageTableEntry(0);
    entry.set_validity(true);
    entry.set_xwr_mode(XWRMode::ReadWrite);
    entry.set_user_mode_accessible(true);
    entry.set_leaf_address(PhysAddr::new(0x8020_0000));
    assert!(entry.get_validity());
    assert_eq!(entry.get_xwr_mode(), XWRMode::ReadWrite);
    assert!(entry.get_user_mode_accessible());
}

#[test]
fn xwr_mode_from_program_header_flags() {
    assert_eq!(XWRMode::from_program_header_flags(ProgramHeaderFlags::R), XWRMode::ReadOnly);
    assert_eq!(XWRMode::from_program_header_flags(ProgramHeaderFlags::RW), XWRMode::ReadWrite);
    assert_eq!(XWRMode::from_program_header_flags(ProgramHeaderFlags::RX), XWRMode::ReadExecute);
    assert_eq!(XWRMode::from_program_header_flags(ProgramHeaderFlags::X), XWRMode::ExecuteOnly);
    assert_eq!(
        XWRMode::from_program_header_flags(ProgramHeaderFlags::RWX),
        XWRMode::ReadWriteExecute
    );
}

#[test]
fn pinned_pages_new() {
    let pages = PinnedHeapPages::new(2);
    assert_eq!(pages.size(), 2 * PAGE_SIZE);
}

#[test]
fn pinned_pages_with_data() {
    let data = [1u8, 2, 3];
    let mut pages = PinnedHeapPages::new(1);
    pages.fill(&data, 0);
    let slice = pages.as_u8_slice();
    assert_eq!(&slice[..3], &data);
    assert!(slice[3..].iter().all(|b| *b == 0));
}

#[test]
fn pinned_pages_with_offset() {
    let data = [1u8, 2, 3];
    let mut pages = PinnedHeapPages::new(1);
    pages.fill(&data, 3);
    let slice = pages.as_u8_slice();
    assert_eq!(&slice[..3], &[0, 0, 0]);
    assert_eq!(&slice[3..6], &data);
    assert!(slice[6..].iter().all(|b| *b == 0));
}

#[test]
fn pinned_pages_with_more_data() {
    const LENGTH: usize = PAGE_SIZE + 3;
    let data = [42u8; LENGTH];
    let mut pages = PinnedHeapPages::new(2);
    pages.fill(&data, 0);
    assert_eq!(pages.len(), 2);
    let slice = pages.as_u8_slice();
    assert_eq!(&slice[..LENGTH], &data);
    assert!(slice[LENGTH..].iter().all(|b| *b == 0));
    assert_eq!(slice.len() - LENGTH, PAGE_SIZE - 3);
}

#[test]
fn pinned_pages_as_u8_slice_covers_every_page() {
    let mut pages = PinnedHeapPages::new(2);
    let addr = pages.addr();
    assert_ne!(addr, 0);
    assert_eq!(addr % PAGE_SIZE, 0);
    let slice = pages.as_u8_slice();
    assert_eq!(slice.len(), PAGE_SIZE * 2);
    assert_eq!(slice.as_ptr() as usize, addr);
}

fn small() -> Layout {
    Layout::from_size_align(1, 1)
}

#[test]
fn heap_constants() {
    assert_eq!(METADATA_SIZE, 16);
    assert_eq!(DATA_ALIGNMENT, 8);
    assert_eq!(MINIMUM_SIZE, METADATA_SIZE + DATA_ALIGNMENT);
}

#[test]
fn empty_heap() {
    let heap = Heap::new();
    assert_eq!(heap.allocated_memory(), 0);
    assert_eq!(allocated_size(&heap), 0);
}

#[test]
fn single_allocation_takes_a_fresh_page() {
    let mut heap = Heap::new();
    // No free block yet: the heap asks for one page.
    assert_eq!(heap.allocate(small()), AllocStep::NeedPages(1));
    let addr = heap.allocate_from_pages(small(), Some(0x10_0000));
    assert_eq!(addr, 0x10_0000);
    assert_eq!(heap.allocated_memory(), MINIMUM_SIZE);
    // The rest of the page is the one free block.
    let rest = heap.find_and_remove(AlignedSizeWithMetadata { size: MINIMUM_SIZE });
    assert_eq!(
        rest,
        Some(FreeBlock { addr: 0x10_0000 + MINIMUM_SIZE, size: AlignedSizeWithMetadata { size: PAGE_SIZE - METADATA_SIZE - DATA_ALIGNMENT } })
    );
    assert_eq!(heap.find_and_remove(AlignedSizeWithMetadata { size: MINIMUM_SIZE }), None);
}

#[test]
fn split_block_serves_second_allocation() {
    let mut heap = Heap::new();
    heap.allocate(small());
    let first = heap.allocate_from_pages(small(), Some(0x10_0000));
    // The rest of the page is a free block right after the first allocation.
    let second = heap.allocate(small());
    assert_eq!(second, AllocStep::Done(first + MINIMUM_SIZE));
    assert_eq!(heap.allocated_memory(), 2 * MINIMUM_SIZE);
    // An odd size is rounded up, so the next block stays 8-aligned.
    let odd = Layout::from_size_align(29, 8);
    let third = heap.allocate(odd);
    assert_eq!(third, AllocStep::Done(first + 2 * MINIMUM_SIZE));
    let fourth = heap.allocate(small());
    assert_eq!(fourth, AllocStep::Done(first + 2 * MINIMUM_SIZE + 32));
    if let AllocStep::Done(a) = fourth {
        assert_eq!(a % 8, 0);
    }
}

#[test]
fn deallocation_puts_block_first() {
    let mut heap = Heap::new();
    heap.allocate(small());
    let first = heap.allocate_from_pages(small(), Some(0x10_0000));
    assert_eq!(heap.dealloc(first, small()), DeallocStep::Done);
    assert_eq!(heap.allocated_memory(), 0);
    // The freed block is reused first.
    assert_eq!(heap.allocate(small()), AllocStep::Done(first));
}

#[test]
fn page_allocator_directly() {
    let mut heap = Heap::new();
    let big = Layout::from_size_align(7 * PAGE_SIZE, 8);
    assert_eq!(heap.allocate(big), AllocStep::NeedPages(7));
    let addr = heap.allocate_from_pages(big, Some(0x20_0000));
    assert_eq!(addr, 0x20_0000);
    assert_eq!(heap.allocated_memory(), 7 * PAGE_SIZE);
    assert_eq!(heap.dealloc(addr, big), DeallocStep::ReturnPages(addr));
    heap.pages_returned(7);
    assert_eq!(heap.allocated_memory(), 0);
}

#[test]
fn alloc_exhaustion_returns_null() {
    let mut heap = Heap::new();
    assert_eq!(heap.allocate(small()), AllocStep::NeedPages(1));
    assert_eq!(heap.allocate_from_pages(small(), None), 0);
    assert_eq!(heap.allocated_memory(), 0);
}
