use vstd::prelude::*;

verus! {

/// Thread id (the id of a process is the id of its main thread).
#[derive(Debug, Clone, Copy, PartialEq, Eq, Structural, PartialOrd, Ord, Hash)]
pub struct Tid(pub u64);

impl Tid {
    /// Wraps a raw thread id.
    pub fn new(tid: u64) -> (r: Self)
        ensures
            r.0 == tid,
    {
        Tid(tid)
    }

    /// The raw thread id.
    pub fn as_u64(self) -> (r: u64)
        ensures
            r == self.0,
    {
        self.0
    }
}

} // verus!
