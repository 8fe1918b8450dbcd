use vstd::prelude::*;

verus! {

/// An address that can be read through, or also written through.
pub trait Pointer: Copy + Sized {
    /// The address as a number.
    spec fn addr(&self) -> usize;

    /// Whether the memory behind the address may be written.
    spec fn is_writable() -> bool;

    /// Whether the memory behind the address may be written.
    fn writable() -> (r: bool)
        ensures
            r == Self::is_writable(),
    ;

    /// The address as a number.
    fn as_raw(&self) -> (r: usize)
        ensures
            r == self.addr(),
    ;

    /// The pointer with address `ptr`.
    fn as_pointer(ptr: usize) -> (r: Self)
        ensures
            r.addr() == ptr,
    ;
}

/// An address whose memory is only read.
#[derive(Clone, Copy, Debug, PartialEq, Eq, Structural)]
pub struct ConstPtr(pub usize);

/// An address whose memory may be written.
#[derive(Clone, Copy, Debug, PartialEq, Eq, Structural)]
pub struct MutPtr(pub usize);

impl Pointer for ConstPtr {
    open spec fn addr(&self) -> usize {
        self.0
    }

    open spec fn is_writable() -> bool {
        false
    }

    fn writable() -> (r: bool) {
        false
    }

    fn as_raw(&self) -> (r: usize) {
        self.0
    }

    fn as_pointer(ptr: usize) -> (r: Self) {
        ConstPtr(ptr)
    }
}

impl Pointer for MutPtr {
    open spec fn addr(&self) -> usize {
        self.0
    }

    open spec fn is_writable() -> bool {
        true
    }

    fn writable() -> (r: bool) {
        true
    }

    fn as_raw(&self) -> (r: usize) {
        self.0
    }

    fn as_pointer(ptr: usize) -> (r: Self) {
        MutPtr(ptr)
    }
}

/// A pointer together with the number of elements behind it.
#[derive(Clone, Copy, Debug)]
pub struct FatPointer<Ptr: Pointer> {
    ptr: Ptr,
    len: usize,
}

impl<Ptr: Pointer> FatPointer<Ptr> {
    /// The pointer part.
    pub closed spec fn spec_ptr(&self) -> Ptr {
        self.ptr
    }

    /// The length part.
    pub closed spec fn spec_len(&self) -> usize {
        self.len
    }

    /// Joins a pointer and a length.
    pub fn new(ptr: Ptr, len: usize) -> (r: Self)
        ensures
            r.spec_ptr() == ptr,
            r.spec_len() == len,
    {
        FatPointer { ptr, len }
    }

    /// The pointer part.
    pub fn ptr(&self) -> (r: Ptr)
        ensures
            r == self.spec_ptr(),
    {
        self.ptr
    }

    /// The length part.
    pub fn len(&self) -> (r: usize)
        ensures
            r == self.spec_len(),
    {
        self.len
    }
}

} // verus!
