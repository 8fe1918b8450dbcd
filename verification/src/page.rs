use vstd::prelude::*;

verus! {

/// Size of a page in bytes.
pub const PAGE_SIZE: usize = 4096;

/// A number of pages.
#[derive(Clone, Copy, Debug, PartialEq, Eq, Structural)]
pub struct Pages(pub usize);

impl Pages {
    /// `n` pages.
    pub fn new(n: usize) -> (r: Self)
        ensures
            r.0 == n,
    {
        Pages(n)
    }

    /// The number of bytes the pages cover.
    pub fn as_bytes(self) -> (r: usize)
        requires
            self.0 * PAGE_SIZE <= usize::MAX,
        ensures
            r == self.0 * PAGE_SIZE,
    {
        self.0 * PAGE_SIZE
    }

    /// `base` advanced by the size of the pages.
    pub fn add_to(self, base: usize) -> (r: usize)
        requires
            self.0 * PAGE_SIZE + base <= usize::MAX,
        ensures
            r == self.0 * PAGE_SIZE + base,
    {
        (self.0 * PAGE_SIZE) + base
    }
}

/// The address of the first element of `v`'s buffer (`Vec::as_ptr`).
/// Claimed: it is not zero, as `Vec` guarantees that its pointer is never
/// null (a vector that did not allocate has a dangling, non-null one); and
/// the buffer does not run past the end of the address space, as the end
/// pointer of its slice is reached without wrapping around.  Where the buffer
/// lies is not claimed: it is wherever the allocator put it.
#[verifier::external_body]
pub(crate) fn buffer_address<T>(v: &Vec<T>) -> (r: usize)
    ensures
        r != 0,
        r + v@.len() * vstd::layout::size_of::<T>() <= usize::MAX,
{
    v.as_ptr() as usize
}

/// Zero-initialised pages on the kernel heap that stay where they are for
/// as long as they live (their address is handed to the page tables).  The
/// pages start on a page boundary: the buffer holds one page more than asked
/// for, and the pages begin at its first page boundary; `head` bytes of the
/// buffer come before them and `tail` bytes after.
#[derive(Debug)]
pub struct PinnedHeapPages {
    allocation: Vec<u8>,
    head: usize,
    tail: usize,
    address: usize,
}

impl PinnedHeapPages {
    /// The pages lie inside the buffer (as `new` sets them up).
    closed spec fn placed(&self) -> bool {
        self.head + self.tail <= self.allocation@.len()
    }

    /// The bytes of the pages.
    pub closed spec fn bytes(&self) -> Seq<u8> {
        if self.placed() {
            self.allocation@.subrange(self.head as int, self.allocation@.len() - self.tail)
        } else {
            self.allocation@
        }
    }

    /// Where the pages start (chosen by the allocator, fixed for as long as
    /// they live).
    pub closed spec fn address(&self) -> usize {
        self.address
    }

    /// Whether the pages lie inside the buffer.
    fn is_placed(&self) -> (r: bool)
        ensures
            r == self.placed(),
    {
        self.head <= self.allocation.len() && self.tail <= self.allocation.len() - self.head
    }

    /// `number_of_pages` (at least one) zeroed pages, starting on a page
    /// boundary.
    pub fn new(number_of_pages: usize) -> (r: Self)
        requires
            number_of_pages > 0,
            (number_of_pages + 1) * PAGE_SIZE <= usize::MAX,
        ensures
            r.bytes() == Seq::new((number_of_pages * PAGE_SIZE) as nat, |i: int| 0u8),
            r.address() != 0,
            r.address() % PAGE_SIZE == 0,
    {
        broadcast use vstd::layout::layout_of_primitives;
        let size = number_of_pages * PAGE_SIZE;
        let allocation = vec![0u8; size + PAGE_SIZE];
        let base = buffer_address(&allocation);
        let rem = base % PAGE_SIZE;
        let head = if rem == 0 {
            0
        } else {
            PAGE_SIZE - rem
        };
        let tail = PAGE_SIZE - head;
        let address = base + head;
        proof {
            assert(address % PAGE_SIZE == 0) by (nonlinear_arith)
                requires
                    rem == base % PAGE_SIZE,
                    head == if rem == 0 { 0 } else { PAGE_SIZE - rem },
                    address == base + head,
            ;
            assert(allocation@.subrange(head as int, allocation@.len() - tail) =~= Seq::new(
                size as nat,
                |i: int| 0u8,
            ));
        }
        PinnedHeapPages { allocation, head, tail, address }
    }

    /// The given number of zeroed pages.
    pub fn new_pages(pages: Pages) -> (r: Self)
        requires
            pages.0 > 0,
            (pages.0 + 1) * PAGE_SIZE <= usize::MAX,
        ensures
            r.bytes() == Seq::new((pages.0 * PAGE_SIZE) as nat, |i: int| 0u8),
            r.address() != 0,
            r.address() % PAGE_SIZE == 0,
    {
        Self::new(pages.0)
    }

    /// Copies `data` into the pages starting at byte `offset`.
    pub fn fill(&mut self, data: &[u8], offset: usize)
        requires
            offset + data@.len() <= old(self).bytes().len(),
        ensures
            final(self).bytes() == old(self).bytes().take(offset as int) + data@ + old(
                self,
            ).bytes().skip(offset + data@.len()),
            final(self).address() == old(self).address(),
    {
        let placed = self.is_placed();
        let (head, tail) = if placed {
            (self.head, self.tail)
        } else {
            (0, 0)
        };
        let ghost b0 = self.allocation@;
        let total = self.allocation.len();
        let start = head + offset;
        let n = data.len();
        let mut i: usize = 0;
        while i < n
            invariant
                n == data@.len(),
                self.head == old(self).head,
                self.tail == old(self).tail,
                head + tail <= b0.len(),
                self.address == old(self).address,
                total == b0.len(),
                self.allocation@.len() == b0.len(),
                i <= n,
                start + n <= b0.len(),
                forall|j: int| 0 <= j < start ==> self.allocation@[j] == b0[j],
                forall|j: int| start + n <= j < b0.len() ==> self.allocation@[j] == b0[j],
                forall|j: int| 0 <= j < i ==> self.allocation@[start + j] == data@[j],
            decreases n - i,
        {
            self.allocation.set(start + i, data[i]);
            i = i + 1;
        }
        proof {
            let h = head as int;
            let e = b0.len() - tail;
            assert(b0.subrange(h, e) == old(self).bytes()) by {
                if !placed {
                    assert(b0.subrange(0, b0.len() as int) =~= b0);
                }
            }
            assert(self.allocation@.subrange(h, e) =~= b0.subrange(h, e).take(offset as int) + data@
                + b0.subrange(h, e).skip(offset + n));
        }
    }

    /// The address of the first page.
    pub fn addr(&self) -> (r: usize)
        ensures
            r == self.address(),
    {
        self.address
    }

    /// The number of pages.
    pub fn len(&self) -> (r: usize)
        ensures
            r == self.bytes().len() / (PAGE_SIZE as nat),
    {
        self.size() / PAGE_SIZE
    }

    /// The number of bytes the pages cover.
    pub fn size(&self) -> (r: usize)
        ensures
            r == self.bytes().len(),
    {
        if self.is_placed() {
            self.allocation.len() - self.head - self.tail
        } else {
            self.allocation.len()
        }
    }
}

/// Pages seen as the bytes they hold.
pub trait PagesAsSlice {
    /// The bytes.
    spec fn page_bytes(&self) -> Seq<u8>;

    /// The bytes, to be written in place.
    fn as_u8_slice(&mut self) -> (r: &mut [u8])
        ensures
            r@ == old(self).page_bytes(),
            final(r)@.len() == r@.len() ==> final(self).page_bytes() == final(r)@,
    ;
}

impl PagesAsSlice for PinnedHeapPages {
    open spec fn page_bytes(&self) -> Seq<u8> {
        self.bytes()
    }

    fn as_u8_slice(&mut self) -> (r: &mut [u8])
        ensures
            final(self).address() == old(self).address(),
    {
        let (head, tail) = if self.is_placed() {
            (self.head, self.tail)
        } else {
            (0, 0)
        };
        let all = self.allocation.as_mut_slice();
        let (front, rest) = all.split_at_mut(head);
        let keep = rest.len() - tail;
        let (pages, back) = rest.split_at_mut(keep);
        proof {
            assert(has_resolved(front));
            assert(has_resolved(back));
        }
        pages
    }
}

} // verus!
