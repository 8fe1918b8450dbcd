use vstd::prelude::*;

use crate::block::{self, transfer_for, device_bytes, BlockDevice, SectorWrite};
use crate::errors::Errno;
use crate::vfs::NodeType;

verus! {

/// `/dev/null`: reads nothing, swallows every write.
#[derive(Clone, Copy, Debug)]
pub struct DevNull {
    pub ino: u64,
}

impl DevNull {
    /// A plain file.
    pub fn node_type(&self) -> (r: NodeType)
        ensures
            r == NodeType::File,
    {
        NodeType::File
    }

    /// Its inode number.
    pub fn ino(&self) -> (r: u64)
        ensures
            r == self.ino,
    {
        self.ino
    }

    /// Always empty.
    pub fn size(&self) -> (r: usize)
        ensures
            r == 0,
    {
        0
    }

    /// Reads nothing: the end of the file at once.
    pub fn read(&self, offset: usize, buf: &mut [u8]) -> (r: Result<usize, Errno>)
        ensures
            r == Ok::<usize, Errno>(0),
            final(buf)@ == old(buf)@,
    {
        Ok(0)
    }

    /// Takes the whole write and drops it.
    pub fn write(&self, offset: usize, data: &[u8]) -> (r: Result<usize, Errno>)
        ensures
            r == Ok::<usize, Errno>(data@.len() as usize),
    {
        Ok(data.len())
    }

    /// Nothing to cut.
    pub fn truncate(&self) -> (r: Result<(), Errno>)
        ensures
            r == Ok::<(), Errno>(()),
    {
        Ok(())
    }
}

/// `/dev/zero`: reads zeros without end, swallows every write.
#[derive(Clone, Copy, Debug)]
pub struct DevZero {
    pub ino: u64,
}

impl DevZero {
    /// A plain file.
    pub fn node_type(&self) -> (r: NodeType)
        ensures
            r == NodeType::File,
    {
        NodeType::File
    }

    /// Its inode number.
    pub fn ino(&self) -> (r: u64)
        ensures
            r == self.ino,
    {
        self.ino
    }

    /// Reported as empty.
    pub fn size(&self) -> (r: usize)
        ensures
            r == 0,
    {
        0
    }

    /// Fills the whole buffer with zeros.
    pub fn read(&self, offset: usize, buf: &mut [u8]) -> (r: Result<usize, Errno>)
        ensures
            r == Ok::<usize, Errno>(old(buf)@.len() as usize),
            final(buf)@ == Seq::new(old(buf)@.len(), |i: int| 0u8),
    {
        let n = buf.len();
        let mut i: usize = 0;
        while i < n
            invariant
                n == old(buf)@.len(),
                buf@.len() == n,
                i <= n,
                forall|j: int| 0 <= j < i ==> buf@[j] == 0u8,
            decreases n - i,
        {
            buf[i] = 0u8;
            i = i + 1;
        }
        assert(buf@ =~= Seq::new(old(buf)@.len(), |i: int| 0u8));
        Ok(n)
    }

    /// Takes the whole write and drops it.
    pub fn write(&self, offset: usize, data: &[u8]) -> (r: Result<usize, Errno>)
        ensures
            r == Ok::<usize, Errno>(data@.len() as usize),
    {
        Ok(data.len())
    }

    /// Nothing to cut.
    pub fn truncate(&self) -> (r: Result<(), Errno>)
        ensures
            r == Ok::<(), Errno>(()),
    {
        Ok(())
    }
}

/// `/dev/vda`: the block device as one file.
#[derive(Clone, Copy, Debug)]
pub struct DevVda {
    pub ino: u64,
}

impl DevVda {
    /// A plain file.
    pub fn node_type(&self) -> (r: NodeType)
        ensures
            r == NodeType::File,
    {
        NodeType::File
    }

    /// Its inode number.
    pub fn ino(&self) -> (r: u64)
        ensures
            r == self.ino,
    {
        self.ino
    }

    /// The size of the device in bytes (zero without one), cut to a word.
    pub fn size(&self, slot: &Option<BlockDevice>) -> (r: usize)
        requires
            slot matches Some(d) ==> d.sectors() * 512 <= u64::MAX,
        ensures
            r == (match slot {
                Some(d) => d.sectors() * 512,
                None => 0,
            }) as usize,
    {
        block::capacity(slot) as usize
    }

    /// Reads from the device at `offset` (see `block::read`).
    pub fn read(&self, slot: &Option<BlockDevice>, offset: usize, buf: &mut [u8], sectors: &[u8]) -> (r: Result<
        usize,
        Errno,
    >)
        requires
            slot matches Some(d) ==> d.sectors() * 512 <= u64::MAX,
            slot matches Some(d) ==> (transfer_for(device_bytes(*d), offset, old(buf)@.len() as usize) matches Some(t)
                ==> sectors@.len() == t.num_sectors * 512),
        ensures
            final(buf)@.len() == old(buf)@.len(),
            match slot {
                None => r == Err::<usize, Errno>(Errno::ENODEV) && final(buf)@ == old(buf)@,
                Some(d) => match transfer_for(device_bytes(*d), offset, old(buf)@.len() as usize) {
                    None => r == Ok::<usize, Errno>(0) && final(buf)@ == old(buf)@,
                    Some(t) => {
                        &&& r == Ok::<usize, Errno>(t.len)
                        &&& forall|j: int|
                            0 <= j < t.len ==> final(buf)@[j] == sectors@[t.offset_in_first_sector + j]
                        &&& forall|j: int| t.len <= j < old(buf)@.len() ==> final(buf)@[j] == old(buf)@[j]
                    },
                },
            },
    {
        block::read(slot, offset, buf, sectors)
    }

    /// Writes to the device at `offset` (see `block::write`).
    pub fn write(&self, slot: &Option<BlockDevice>, offset: usize, data: &[u8], existing: &[u8]) -> (r: Result<
        (usize, Option<SectorWrite>),
        Errno,
    >)
        requires
            slot matches Some(d) ==> d.sectors() * 512 <= u64::MAX,
            slot matches Some(d) ==> (transfer_for(device_bytes(*d), offset, data@.len() as usize) matches Some(t)
                ==> (block::write_needs_read(t) ==> existing@.len() == t.num_sectors * 512)),
        ensures
            match slot {
                None => r == Err::<(usize, Option<SectorWrite>), Errno>(Errno::ENODEV),
                Some(d) => match transfer_for(device_bytes(*d), offset, data@.len() as usize) {
                    None => r matches Ok((0, None)),
                    Some(t) => r matches Ok((n, Some(w))) && n == t.len && w.start_sector == t.start_sector
                        && w.data@ == block::sectors_after_write(t, existing@, data@),
                },
            },
    {
        block::write(slot, offset, data, existing)
    }

    /// A device cannot be cut.
    pub fn truncate(&self) -> (r: Result<(), Errno>)
        ensures
            r == Err::<(), Errno>(Errno::EINVAL),
    {
        Err(Errno::EINVAL)
    }
}

} // verus!
