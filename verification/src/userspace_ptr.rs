use vstd::prelude::*;

use crate::pointer::Pointer;

verus! {

/// A pointer into the address space of a user process; it must be checked
/// and translated before the kernel touches the memory behind it.
#[derive(Debug, Clone, Copy)]
pub struct UserspacePtr<P: Pointer> {
    ptr: P,
}

impl<P: Pointer> UserspacePtr<P> {
    /// The user address.
    pub closed spec fn user_addr(&self) -> usize {
        self.ptr.addr()
    }

    /// Wraps a pointer user space handed over.
    pub fn new(ptr: P) -> (r: Self)
        ensures
            r.user_addr() == ptr.addr(),
    {
        UserspacePtr { ptr }
    }

    /// The user pointer itself, not yet checked or translated.
    pub fn get(&self) -> (r: P)
        ensures
            r.addr() == self.user_addr(),
    {
        self.ptr
    }
}

} // verus!
