use vstd::prelude::*;

use crate::pid::Tid;
use crate::pointer::{ConstPtr, FatPointer, Pointer};

verus! {

/// Keeps alive, for the duration of a system call, the buffers that nested
/// arguments were translated into (a list of strings becomes a list of
/// pointer/length pairs that must stay in memory).
pub struct SyscallTempStorage {
    vecs: Vec<Vec<FatPointer<ConstPtr>>>,
}

impl SyscallTempStorage {
    /// The buffers kept so far, oldest first.
    pub closed spec fn stored(&self) -> Seq<Vec<FatPointer<ConstPtr>>> {
        self.vecs@
    }

    /// Keeps `vec` alive until the storage is dropped.
    pub fn add(&mut self, vec: Vec<FatPointer<ConstPtr>>)
        ensures
            final(self).stored() == old(self).stored().push(vec),
    {
        self.vecs.push(vec);
    }
}

impl Default for SyscallTempStorage {
    fn default() -> (r: Self)
        ensures
            r.stored() == Seq::<Vec<FatPointer<ConstPtr>>>::empty(),
    {
        SyscallTempStorage { vecs: Vec::new() }
    }
}

/// A value that can be handed to the kernel as a system-call argument.
pub trait SyscallArgument: Sized {
    /// The representation the kernel reads.
    type Converted: Copy;

    /// `out` is what `self` turns into, and the storage went from `before` to `after`.
    spec fn converts_to(
        self,
        out: Self::Converted,
        before: Seq<Vec<FatPointer<ConstPtr>>>,
        after: Seq<Vec<FatPointer<ConstPtr>>>,
    ) -> bool;

    /// Translates the value, keeping any buffer it needs in `storage`.
    fn convert(self, storage: &mut SyscallTempStorage) -> (r: Self::Converted)
        ensures
            self.converts_to(r, old(storage).stored(), final(storage).stored()),
    ;
}

impl SyscallArgument for u8 {
    type Converted = u8;

    open spec fn converts_to(self, out: u8, before: Seq<Vec<FatPointer<ConstPtr>>>, after: Seq<Vec<FatPointer<ConstPtr>>>) -> bool {
        out == self && after == before
    }

    fn convert(self, storage: &mut SyscallTempStorage) -> (r: u8) {
        self
    }
}

impl SyscallArgument for u16 {
    type Converted = u16;

    open spec fn converts_to(self, out: u16, before: Seq<Vec<FatPointer<ConstPtr>>>, after: Seq<Vec<FatPointer<ConstPtr>>>) -> bool {
        out == self && after == before
    }

    fn convert(self, storage: &mut SyscallTempStorage) -> (r: u16) {
        self
    }
}

impl SyscallArgument for u32 {
    type Converted = u32;

    open spec fn converts_to(self, out: u32, before: Seq<Vec<FatPointer<ConstPtr>>>, after: Seq<Vec<FatPointer<ConstPtr>>>) -> bool {
        out == self && after == before
    }

    fn convert(self, storage: &mut SyscallTempStorage) -> (r: u32) {
        self
    }
}

impl SyscallArgument for u64 {
    type Converted = u64;

    open spec fn converts_to(self, out: u64, before: Seq<Vec<FatPointer<ConstPtr>>>, after: Seq<Vec<FatPointer<ConstPtr>>>) -> bool {
        out == self && after == before
    }

    fn convert(self, storage: &mut SyscallTempStorage) -> (r: u64) {
        self
    }
}

impl SyscallArgument for usize {
    type Converted = usize;

    open spec fn converts_to(self, out: usize, before: Seq<Vec<FatPointer<ConstPtr>>>, after: Seq<Vec<FatPointer<ConstPtr>>>) -> bool {
        out == self && after == before
    }

    fn convert(self, storage: &mut SyscallTempStorage) -> (r: usize) {
        self
    }
}

impl SyscallArgument for i32 {
    type Converted = i32;

    open spec fn converts_to(self, out: i32, before: Seq<Vec<FatPointer<ConstPtr>>>, after: Seq<Vec<FatPointer<ConstPtr>>>) -> bool {
        out == self && after == before
    }

    fn convert(self, storage: &mut SyscallTempStorage) -> (r: i32) {
        self
    }
}

impl SyscallArgument for i64 {
    type Converted = i64;

    open spec fn converts_to(self, out: i64, before: Seq<Vec<FatPointer<ConstPtr>>>, after: Seq<Vec<FatPointer<ConstPtr>>>) -> bool {
        out == self && after == before
    }

    fn convert(self, storage: &mut SyscallTempStorage) -> (r: i64) {
        self
    }
}

impl SyscallArgument for isize {
    type Converted = isize;

    open spec fn converts_to(self, out: isize, before: Seq<Vec<FatPointer<ConstPtr>>>, after: Seq<Vec<FatPointer<ConstPtr>>>) -> bool {
        out == self && after == before
    }

    fn convert(self, storage: &mut SyscallTempStorage) -> (r: isize) {
        self
    }
}

impl SyscallArgument for char {
    type Converted = char;

    open spec fn converts_to(self, out: char, before: Seq<Vec<FatPointer<ConstPtr>>>, after: Seq<Vec<FatPointer<ConstPtr>>>) -> bool {
        out == self && after == before
    }

    fn convert(self, storage: &mut SyscallTempStorage) -> (r: char) {
        self
    }
}

impl SyscallArgument for Tid {
    type Converted = Tid;

    open spec fn converts_to(self, out: Tid, before: Seq<Vec<FatPointer<ConstPtr>>>, after: Seq<Vec<FatPointer<ConstPtr>>>) -> bool {
        out == self && after == before
    }

    fn convert(self, storage: &mut SyscallTempStorage) -> (r: Tid) {
        self
    }
}

impl SyscallArgument for FatPointer<ConstPtr> {
    type Converted = FatPointer<ConstPtr>;

    open spec fn converts_to(self, out: FatPointer<ConstPtr>, before: Seq<Vec<FatPointer<ConstPtr>>>, after: Seq<Vec<FatPointer<ConstPtr>>>) -> bool {
        out == self && after == before
    }

    fn convert(self, storage: &mut SyscallTempStorage) -> (r: FatPointer<ConstPtr>) {
        self
    }
}

/// A list of strings, each already given as address and length.
pub struct StrList(pub Vec<FatPointer<ConstPtr>>);

impl SyscallArgument for StrList {
    type Converted = FatPointer<ConstPtr>;

    /// The list itself is kept in the storage, and the kernel gets the length
    /// of the list (the address is where the kept list lives).
    open spec fn converts_to(self, out: FatPointer<ConstPtr>, before: Seq<Vec<FatPointer<ConstPtr>>>, after: Seq<Vec<FatPointer<ConstPtr>>>) -> bool {
        &&& out.spec_len() == self.0@.len()
        &&& after == before.push(self.0)
    }

    fn convert(self, storage: &mut SyscallTempStorage) -> (r: FatPointer<ConstPtr>) {
        let temp_vec = self.0;
        let converted = FatPointer::new(ConstPtr::as_pointer(crate::page::buffer_address(&temp_vec)), temp_vec.len());
        storage.add(temp_vec);
        converted
    }
}

} // verus!
