use vstd::prelude::*;

verus! {

/// Identifier of a hart (hardware thread) as handed out by the firmware.
#[derive(Clone, Copy, Debug, PartialEq, Eq, Structural)]
pub struct CpuId(pub usize);

impl CpuId {
    /// Wraps the hart id given by the firmware.
    pub fn from_hart_id(hart_id: usize) -> (id: Self)
        ensures
            id.0 == hart_id,
    {
        CpuId(hart_id)
    }

    /// The hart id as a plain number.
    pub fn as_usize(self) -> (v: usize)
        ensures
            v == self.0,
    {
        self.0
    }
}

} // verus!
