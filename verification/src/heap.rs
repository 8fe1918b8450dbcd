use vstd::prelude::*;

use crate::page::PAGE_SIZE;
use crate::util::{align_up, align_up_fits, align_up_spec, minimum_amount_of_pages};

verus! {

/// Size of the header of a free block (next pointer and size).
pub const METADATA_SIZE: usize = 16;

/// Alignment of every block.
pub const DATA_ALIGNMENT: usize = 8;

/// The smallest block: a header and one word of data.
pub const MINIMUM_SIZE: usize = 24;

/// Size and alignment of a requested allocation.
#[derive(Clone, Copy, Debug, PartialEq, Eq, Structural)]
pub struct Layout {
    pub size: usize,
    pub align: usize,
}

impl Layout {
    /// A layout of `size` bytes aligned to `align`.
    pub fn from_size_align(size: usize, align: usize) -> (r: Self)
        ensures
            r.size == size,
            r.align == align,
    {
        Layout { size, align }
    }
}

/// Whether an allocation goes straight to the page allocator: a page or
/// more, or page alignment.
pub open spec fn is_page_layout(layout: Layout) -> bool {
    layout.size >= PAGE_SIZE || layout.align == PAGE_SIZE
}

/// The block size for a small allocation: at least the minimum, rounded to
/// the block alignment.
pub open spec fn block_size_for(layout: Layout) -> nat {
    align_up_spec(
        if layout.size >= MINIMUM_SIZE {
            layout.size as nat
        } else {
            MINIMUM_SIZE as nat
        },
        DATA_ALIGNMENT as nat,
    )
}

/// Pages needed for `bytes`.
pub open spec fn pages_for(bytes: nat) -> nat {
    align_up_spec(bytes, PAGE_SIZE as nat) / (PAGE_SIZE as nat)
}

/// A block size rounded to the block alignment.
#[derive(Clone, Copy, Debug, PartialEq, Eq, Structural)]
pub struct AlignedSizeWithMetadata {
    pub size: usize,
}

impl AlignedSizeWithMetadata {
    /// Size zero.
    pub fn new() -> (r: Self)
        ensures
            r.size == 0,
    {
        AlignedSizeWithMetadata { size: 0 }
    }

    /// The block size for a small allocation.
    pub fn from_layout(layout: Layout) -> (r: Self)
        requires
            layout.align <= DATA_ALIGNMENT,
            layout.size + DATA_ALIGNMENT <= usize::MAX,
        ensures
            r.size == block_size_for(layout),
            r.size % DATA_ALIGNMENT as usize == 0,
            r.size >= MINIMUM_SIZE,
            layout.size < PAGE_SIZE ==> r.size <= PAGE_SIZE,
    {
        let s = if layout.size >= MINIMUM_SIZE {
            layout.size
        } else {
            MINIMUM_SIZE
        };
        AlignedSizeWithMetadata { size: align_up(s, DATA_ALIGNMENT) }
    }

    /// The block size of `pages` whole pages.
    pub fn from_pages(pages: usize) -> (r: Self)
        requires
            pages * PAGE_SIZE + DATA_ALIGNMENT <= usize::MAX,
        ensures
            r.size == pages * PAGE_SIZE,
    {
        proof {
            assert((pages * PAGE_SIZE) % 8 == 0) by (nonlinear_arith);
        }
        AlignedSizeWithMetadata { size: align_up(pages * PAGE_SIZE, DATA_ALIGNMENT) }
    }

    /// The size in bytes.
    pub fn total_size(&self) -> (r: usize)
        ensures
            r == self.size,
    {
        self.size
    }

    /// What is left of this block once `needed_size` is carved off; the rest
    /// must still hold a minimal block.
    pub fn get_remaining_size(&self, needed_size: AlignedSizeWithMetadata) -> (r: Self)
        requires
            self.size >= needed_size.size + MINIMUM_SIZE,
        ensures
            r.size == self.size - needed_size.size,
    {
        AlignedSizeWithMetadata { size: self.size - needed_size.size }
    }
}

/// A free block of the heap: where it starts and how large it is.
#[derive(Clone, Copy, Debug, PartialEq, Eq, Structural)]
pub struct FreeBlock {
    pub addr: usize,
    pub size: AlignedSizeWithMetadata,
}

/// A free block the heap can hold: large enough for its header and one
/// word, aligned in address and size, and inside the address space.
pub open spec fn block_ok(b: FreeBlock) -> bool {
    &&& b.addr % DATA_ALIGNMENT == 0
    &&& b.size.size >= MINIMUM_SIZE
    &&& b.size.size % DATA_ALIGNMENT == 0
    &&& b.addr + b.size.size <= usize::MAX
}

impl FreeBlock {
    /// A free block of `size` bytes at `addr`; the size must hold a minimal
    /// block and be aligned.
    pub fn initialize(addr: usize, size: AlignedSizeWithMetadata) -> (r: Self)
        requires
            size.size >= MINIMUM_SIZE,
            size.size % DATA_ALIGNMENT == 0,
        ensures
            r.addr == addr,
            r.size == size,
    {
        FreeBlock { addr, size }
    }

    /// Shrinks `block` to `requested_size` and returns the free block made of
    /// the rest, right after it.
    pub fn split(block: &mut FreeBlock, requested_size: AlignedSizeWithMetadata) -> (r: FreeBlock)
        requires
            block_ok(*old(block)),
            old(block).size.size >= requested_size.size + MINIMUM_SIZE,
            requested_size.size % DATA_ALIGNMENT == 0,
        ensures
            final(block).addr == old(block).addr,
            final(block).size == requested_size,
            r.addr == old(block).addr + requested_size.size,
            r.size.size == old(block).size.size - requested_size.size,
            block_ok(r),
    {
        let remaining_size = block.size.get_remaining_size(requested_size);
        let new_block = block.addr + requested_size.total_size();
        block.size = requested_size;
        FreeBlock::initialize(new_block, remaining_size)
    }
}

/// The position of the first block of `list` that can hold `size` bytes.
pub open spec fn first_fit(list: Seq<FreeBlock>, size: nat) -> Option<int>
    decreases list.len(),
{
    if list.len() == 0 {
        None
    } else if list[0].size.size >= size {
        Some(0)
    } else {
        match first_fit(list.drop_first(), size) {
            Some(i) => Some(i + 1),
            None => None,
        }
    }
}

/// Where the heap goes next after trying to allocate.
#[derive(Debug, Clone, Copy, PartialEq, Eq, Structural)]
pub enum AllocStep {
    /// The allocation is at this address.
    Done(usize),
    /// The heap needs this many fresh pages (see `allocate_from_pages`).
    NeedPages(usize),
}

/// Where the heap goes next after freeing.
#[derive(Debug, Clone, Copy, PartialEq, Eq, Structural)]
pub enum DeallocStep {
    /// The block went back to the free list.
    Done,
    /// The pages at this address go back to the page allocator (see
    /// `pages_returned`).
    ReturnPages(usize),
}

/// What a first allocation attempt does to the free list `blocks` and the
/// byte count `allocated`: page-sized requests, and small ones no free block
/// holds, ask for pages and change nothing; a small one that fits takes the
/// first block that holds it, frees the unused rest when that can hold a
/// minimal block, and is counted.
pub open spec fn allocate_effect(blocks: Seq<FreeBlock>, allocated: nat, layout: Layout) -> (
    AllocStep,
    Seq<FreeBlock>,
    nat,
) {
    if is_page_layout(layout) {
        (AllocStep::NeedPages(pages_for(layout.size as nat) as usize), blocks, allocated)
    } else {
        let need = block_size_for(layout);
        match first_fit(blocks, need) {
            None => (AllocStep::NeedPages(pages_for(need) as usize), blocks, allocated),
            Some(i) => {
                let b = blocks[i];
                let rest = blocks.remove(i);
                let after = if b.size.size - need < MINIMUM_SIZE {
                    rest
                } else {
                    seq![
                        FreeBlock {
                            addr: (b.addr + need) as usize,
                            size: AlignedSizeWithMetadata { size: (b.size.size - need) as usize },
                        },
                    ] + rest
                };
                (AllocStep::Done(b.addr), after, allocated + need)
            },
        }
    }
}

/// What freeing the allocation at `ptr` made with `layout` does: a small
/// block goes to the front of the free list and leaves the count; page
/// allocations go back to the page allocator.
pub open spec fn dealloc_effect(blocks: Seq<FreeBlock>, allocated: nat, ptr: usize, layout: Layout) -> (
    DeallocStep,
    Seq<FreeBlock>,
    nat,
) {
    if is_page_layout(layout) {
        (DeallocStep::ReturnPages(ptr), blocks, allocated)
    } else {
        let need = block_size_for(layout);
        (
            DeallocStep::Done,
            seq![FreeBlock { addr: ptr, size: AlignedSizeWithMetadata { size: need as usize } }] + blocks,
            (allocated - need) as nat,
        )
    }
}

/// The kernel heap: a first-fit free list of blocks carved out of pages from
/// the page allocator, and the number of bytes handed out.
pub struct Heap {
    free_list: Vec<FreeBlock>,
    allocated_memory: usize,
}

impl Heap {
    /// The free blocks, most recently freed first.
    pub closed spec fn blocks(&self) -> Seq<FreeBlock> {
        self.free_list@
    }

    /// Bytes handed out.
    pub closed spec fn allocated(&self) -> nat {
        self.allocated_memory as nat
    }

    /// Every free block is one the heap can hold.
    pub open spec fn wf(&self) -> bool {
        forall|i: int| 0 <= i < self.blocks().len() ==> block_ok(#[trigger] self.blocks()[i])
    }

    /// An empty heap.
    pub fn new() -> (r: Self)
        ensures
            r.blocks() == Seq::<FreeBlock>::empty(),
            r.allocated() == 0,
            r.wf(),
    {
        Heap { free_list: Vec::new(), allocated_memory: 0 }
    }

    /// Bytes handed out.
    pub fn allocated_memory(&self) -> (r: usize)
        ensures
            r == self.allocated(),
    {
        self.allocated_memory
    }

    /// Whether `layout` goes straight to the page allocator.
    pub fn is_page_allocator_allocation(&self, layout: &Layout) -> (r: bool)
        ensures
            r == is_page_layout(*layout),
    {
        layout.size >= PAGE_SIZE || layout.align == PAGE_SIZE
    }

    /// Puts `block` at the front of the free list.
    pub fn insert(&mut self, block: FreeBlock)
        requires
            old(self).wf(),
            block_ok(block),
        ensures
            final(self).wf(),
            final(self).blocks() == seq![block] + old(self).blocks(),
            final(self).allocated() == old(self).allocated(),
    {
        self.free_list.insert(0, block);
        proof {
            assert(self.free_list@ =~= seq![block] + old(self).blocks());
            assert forall|i: int| 0 <= i < self.blocks().len() implies block_ok(
                #[trigger] self.blocks()[i],
            ) by {
                if i > 0 {
                    assert(self.blocks()[i] == old(self).blocks()[i - 1]);
                }
            }
        }
    }

    /// Removes and returns the first free block that can hold `requested_size`.
    pub fn find_and_remove(&mut self, requested_size: AlignedSizeWithMetadata) -> (r: Option<FreeBlock>)
        requires
            old(self).wf(),
        ensures
            final(self).wf(),
            final(self).allocated() == old(self).allocated(),
            match first_fit(old(self).blocks(), requested_size.size as nat) {
                Some(i) => r == Some(old(self).blocks()[i]) && final(self).blocks() == old(
                    self,
                ).blocks().remove(i),
                None => r is None && final(self).blocks() == old(self).blocks(),
            },
    {
        let mut i: usize = 0;
        while i < self.free_list.len()
            invariant
                i <= self.free_list@.len(),
                old(self).wf(),
                self.free_list@ == old(self).blocks(),
                self.allocated_memory == old(self).allocated(),
                forall|j: int| 0 <= j < i ==> self.free_list@[j].size.size < requested_size.size,
            decreases self.free_list@.len() - i,
        {
            if self.free_list[i].size.size >= requested_size.size {
                proof {
                    lemma_first_fit_at(self.free_list@, requested_size.size as nat, i as int);
                }
                let block = self.free_list.remove(i);
                proof {
                    assert forall|k: int| 0 <= k < self.blocks().len() implies block_ok(
                        #[trigger] self.blocks()[k],
                    ) by {
                        if k < i {
                            assert(self.blocks()[k] == old(self).blocks()[k]);
                        } else {
                            assert(self.blocks()[k] == old(self).blocks()[k + 1]);
                        }
                    }
                }
                return Some(block);
            }
            i = i + 1;
        }
        proof {
            lemma_first_fit_none(self.free_list@, requested_size.size as nat);
        }
        None
    }

    /// Splits `block` when the part not needed can hold a minimal block, and
    /// frees that part.
    pub fn split_if_necessary(&mut self, block: &mut FreeBlock, requested_size: AlignedSizeWithMetadata)
        requires
            old(self).wf(),
            block_ok(*old(block)),
            old(block).size.size >= requested_size.size,
            requested_size.size % DATA_ALIGNMENT == 0,
        ensures
            final(self).wf(),
            final(self).allocated() == old(self).allocated(),
            final(block).addr == old(block).addr,
            old(block).size.size - requested_size.size < MINIMUM_SIZE ==> *final(block) == *old(
                block,
            ) && final(self).blocks() == old(self).blocks(),
            old(block).size.size - requested_size.size >= MINIMUM_SIZE ==> {
                &&& final(block).size == requested_size
                &&& final(self).blocks() == seq![
                    FreeBlock {
                        addr: (old(block).addr + requested_size.size) as usize,
                        size: AlignedSizeWithMetadata {
                            size: (old(block).size.size - requested_size.size) as usize,
                        },
                    },
                ] + old(self).blocks()
            },
    {
        let current_block_size = block.size;
        if current_block_size.total_size() - requested_size.total_size() < MINIMUM_SIZE {
            return;
        }
        let new_block = FreeBlock::split(block, requested_size);
        self.insert(new_block);
    }

    /// First step of an allocation.  Page-sized (or page-aligned) requests
    /// and small requests no free block can hold ask for fresh pages; a small
    /// request that fits takes the first free block that can hold it, splits
    /// off the unused rest when that is large enough, and is accounted for.
    pub fn allocate(&mut self, layout: Layout) -> (r: AllocStep)
        requires
            old(self).wf(),
            is_page_layout(layout) ==> align_up_fits(layout.size, PAGE_SIZE),
            !is_page_layout(layout) ==> layout.align <= DATA_ALIGNMENT,
            !is_page_layout(layout) ==> old(self).allocated() + block_size_for(layout) <= usize::MAX,
        ensures
            final(self).wf(),
            (r, final(self).blocks(), final(self).allocated()) == allocate_effect(
                old(self).blocks(),
                old(self).allocated(),
                layout,
            ),
            r matches AllocStep::Done(a) ==> a % DATA_ALIGNMENT == 0,
    {
        if self.is_page_allocator_allocation(&layout) {
            return AllocStep::NeedPages(minimum_amount_of_pages(layout.size));
        }
        let requested_size = AlignedSizeWithMetadata::from_layout(layout);
        let found = self.find_and_remove(requested_size);
        match found {
            Some(mut block) => {
                proof {
                    lemma_first_fit_props(old(self).blocks(), requested_size.size as nat);
                }
                self.split_if_necessary(&mut block, requested_size);
                self.allocated_memory = self.allocated_memory + requested_size.total_size();
                AllocStep::Done(block.addr)
            },
            None => {
                proof {
                    crate::util::lemma_align_up_properties(requested_size.size as nat, PAGE_SIZE as nat);
                }
                AllocStep::NeedPages(minimum_amount_of_pages(requested_size.total_size()))
            },
        }
    }

    /// Second step of an allocation that needed pages, given what the page
    /// allocator returned (`None` when it ran out).  A page-sized request gets
    /// the pages themselves; a small one makes them a free block, splits off
    /// the unused rest when that is large enough, and gets its start.
    /// Returns zero when there are no pages.
    pub fn allocate_from_pages(&mut self, layout: Layout, allocation: Option<usize>) -> (r: usize)
        requires
            old(self).wf(),
            is_page_layout(layout) ==> align_up_fits(layout.size, PAGE_SIZE),
            is_page_layout(layout) ==> old(self).allocated() + pages_for(layout.size as nat) * PAGE_SIZE
                <= usize::MAX,
            !is_page_layout(layout) ==> layout.align <= DATA_ALIGNMENT,
            !is_page_layout(layout) ==> old(self).allocated() + block_size_for(layout) <= usize::MAX,
            allocation matches Some(a) ==> a + PAGE_SIZE <= usize::MAX,
            allocation matches Some(a) ==> a % PAGE_SIZE == 0,
        ensures
            final(self).wf(),
            r % DATA_ALIGNMENT == 0,
            allocation is None ==> r == 0 && final(self).blocks() == old(self).blocks()
                && final(self).allocated() == old(self).allocated(),
            allocation matches Some(a) ==> r == a,
            (allocation is Some && is_page_layout(layout)) ==> final(self).blocks() == old(self).blocks()
                && final(self).allocated() == old(self).allocated() + pages_for(layout.size as nat)
                * PAGE_SIZE,
            (allocation is Some && !is_page_layout(layout)) ==> {
                let a = allocation->Some_0;
                let need = block_size_for(layout);
                let pages = pages_for(need) * PAGE_SIZE;
                &&& final(self).allocated() == old(self).allocated() + need
                &&& pages - need < MINIMUM_SIZE ==> final(self).blocks() == old(self).blocks()
                &&& pages - need >= MINIMUM_SIZE ==> final(self).blocks() == seq![
                    FreeBlock {
                        addr: (a + need) as usize,
                        size: AlignedSizeWithMetadata { size: (pages - need) as usize },
                    },
                ] + old(self).blocks()
            },
    {
        if self.is_page_allocator_allocation(&layout) {
            let pages = minimum_amount_of_pages(layout.size);
            match allocation {
                Some(start) => {
                    self.allocated_memory = self.allocated_memory + pages * PAGE_SIZE;
                    assert(self.blocks() == old(self).blocks());
                    return start;
                },
                None => {
                    return 0;
                },
            }
        }
        let requested_size = AlignedSizeWithMetadata::from_layout(layout);
        let start = match allocation {
            Some(start) => start,
            None => {
                return 0;
            },
        };
        proof {
            crate::util::lemma_align_up_properties(requested_size.size as nat, PAGE_SIZE as nat);
            crate::util::lemma_pages_cover(requested_size.size as nat);
        }
        let pages = minimum_amount_of_pages(requested_size.total_size());
        proof {
            assert(pages == 1);
        }
        let mut block = FreeBlock::initialize(start, AlignedSizeWithMetadata::from_pages(pages));
        self.split_if_necessary(&mut block, requested_size);
        self.allocated_memory = self.allocated_memory + requested_size.total_size();
        block.addr
    }

    /// Frees the allocation at `ptr` made with `layout`.  A small block goes
    /// to the front of the free list and leaves the accounting; page
    /// allocations go back to the page allocator.
    pub fn dealloc(&mut self, ptr: usize, layout: Layout) -> (r: DeallocStep)
        requires
            old(self).wf(),
            ptr != 0,
            !is_page_layout(layout) ==> ptr % DATA_ALIGNMENT == 0,
            !is_page_layout(layout) ==> layout.align <= DATA_ALIGNMENT,
            !is_page_layout(layout) ==> old(self).allocated() >= block_size_for(layout),
            !is_page_layout(layout) ==> ptr + block_size_for(layout) <= usize::MAX,
        ensures
            final(self).wf(),
            (r, final(self).blocks(), final(self).allocated()) == dealloc_effect(
                old(self).blocks(),
                old(self).allocated(),
                ptr,
                layout,
            ),
    {
        if self.is_page_allocator_allocation(&layout) {
            return DeallocStep::ReturnPages(ptr);
        }
        let size = AlignedSizeWithMetadata::from_layout(layout);
        let free_block = FreeBlock { addr: ptr, size };
        self.insert(free_block);
        self.allocated_memory = self.allocated_memory - size.total_size();
        DeallocStep::Done
    }

    /// Accounts for `pages` pages the page allocator took back.
    pub fn pages_returned(&mut self, pages: usize)
        requires
            pages * PAGE_SIZE <= old(self).allocated(),
        ensures
            final(self).allocated() == old(self).allocated() - pages * PAGE_SIZE,
            final(self).blocks() == old(self).blocks(),
    {
        self.allocated_memory = self.allocated_memory - pages * PAGE_SIZE;
    }
}

/// The bytes the kernel heap has handed out.
pub fn allocated_size(heap: &Heap) -> (r: usize)
    ensures
        r == heap.allocated(),
{
    heap.allocated_memory()
}

proof fn lemma_first_fit_at(list: Seq<FreeBlock>, size: nat, i: int)
    requires
        0 <= i < list.len(),
        list[i].size.size >= size,
        forall|j: int| 0 <= j < i ==> list[j].size.size < size,
    ensures
        first_fit(list, size) == Some(i),
    decreases i,
{
    if i > 0 {
        lemma_first_fit_at(list.drop_first(), size, i - 1);
    }
}

proof fn lemma_first_fit_none(list: Seq<FreeBlock>, size: nat)
    requires
        forall|j: int| 0 <= j < list.len() ==> list[j].size.size < size,
    ensures
        first_fit(list, size) is None,
    decreases list.len(),
{
    if list.len() > 0 {
        lemma_first_fit_none(list.drop_first(), size);
    }
}

proof fn lemma_first_fit_props(list: Seq<FreeBlock>, size: nat)
    ensures
        first_fit(list, size) matches Some(i) ==> 0 <= i < list.len() && list[i].size.size >= size,
    decreases list.len(),
{
    if list.len() > 0 {
        lemma_first_fit_props(list.drop_first(), size);
    }
}

/// Freeing a small allocation gives back what allocating it took: after an
/// allocation served from the free list and the free of the address it
/// returned, the byte count is what it was, and the block at that address,
/// of the allocation's size, heads the free list.
pub proof fn lemma_free_undoes_allocate(blocks: Seq<FreeBlock>, allocated: nat, layout: Layout)
    requires
        !is_page_layout(layout),
        first_fit(blocks, block_size_for(layout)) is Some,
    ensures
        ({
            let (step, b1, a1) = allocate_effect(blocks, allocated, layout);
            &&& step is Done
            &&& ({
                let (_, b2, a2) = dealloc_effect(b1, a1, step->Done_0, layout);
                &&& a2 == allocated
                &&& b2[0] == FreeBlock {
                    addr: step->Done_0,
                    size: AlignedSizeWithMetadata { size: block_size_for(layout) as usize },
                }
                &&& b2.len() == b1.len() + 1
            })
        }),
{
}

/// An allocation served from the free list hands out the start of the first
/// free block large enough for it.
pub proof fn lemma_allocate_first_fit(blocks: Seq<FreeBlock>, allocated: nat, layout: Layout)
    requires
        !is_page_layout(layout),
        first_fit(blocks, block_size_for(layout)) is Some,
    ensures
        ({
            let i = first_fit(blocks, block_size_for(layout))->Some_0;
            &&& allocate_effect(blocks, allocated, layout).0 == AllocStep::Done(blocks[i].addr)
            &&& blocks[i].size.size >= block_size_for(layout)
            &&& forall|j: int| 0 <= j < i ==> blocks[j].size.size < block_size_for(layout)
        }),
{
    lemma_first_fit_props(blocks, block_size_for(layout));
    lemma_first_fit_prefix(blocks, block_size_for(layout));
}

proof fn lemma_first_fit_prefix(list: Seq<FreeBlock>, size: nat)
    ensures
        first_fit(list, size) matches Some(i) ==> forall|j: int| 0 <= j < i ==> list[j].size.size < size,
    decreases list.len(),
{
    if list.len() > 0 {
        lemma_first_fit_prefix(list.drop_first(), size);
        lemma_first_fit_props(list, size);
        if let Some(i) = first_fit(list, size) {
            assert forall|j: int| 0 <= j < i implies list[j].size.size < size by {
                if j > 0 {
                    assert(list[j] == list.drop_first()[j - 1]);
                }
            }
        }
    }
}

} // verus!
