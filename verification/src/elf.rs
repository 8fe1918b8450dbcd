use vstd::prelude::*;

verus! {

/// Access rights of a loadable program segment.
#[derive(Clone, Copy, Debug, PartialEq, Eq, Structural)]
pub enum ProgramHeaderFlags {
    X,
    W,
    WX,
    R,
    RX,
    RW,
    RWX,
}

/// Kind of a program header; only loadable segments are mapped.
#[derive(Clone, Copy, Debug, PartialEq, Eq, Structural)]
pub enum ProgramHeaderType {
    PtNull,
    PtLoad,
    PtOther,
}

/// A program header together with the bytes of its segment in the file.
#[derive(Clone, Debug)]
pub struct ProgramHeader {
    pub header_type: ProgramHeaderType,
    pub access_flags: ProgramHeaderFlags,
    pub virtual_address: u64,
    pub memory_size: u64,
    pub data: Vec<u8>,
}

} // verus!
