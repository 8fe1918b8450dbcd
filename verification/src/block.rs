use vstd::prelude::*;

use crate::errors::Errno;
use crate::loader::{word_bytes, write_u64_le, zeros};
use crate::virtio::{is_virtio_device, DeviceKind, InitPhase, VirtioCap, VirtioInit};

verus! {

/// Bytes per sector.
pub const SECTOR_SIZE: usize = 512;
/// PCI subsystem id of VirtIO block devices.
pub const VIRTIO_BLOCK_SUBSYSTEM_ID: u16 = 2;
/// Request types and the status of a request that succeeded.
pub const VIRTIO_BLK_T_IN: u32 = 0;
pub const VIRTIO_BLK_T_OUT: u32 = 1;
pub const VIRTIO_BLK_S_OK: u8 = 0;

/// Who writes a buffer of a request.
#[derive(Clone, Copy, Debug, PartialEq, Eq, Structural)]
pub enum BufferDirection {
    DriverWritable,
    DeviceWritable,
}

/// What is wrong with a completed request.
#[derive(Clone, Copy, Debug, PartialEq, Eq, Structural)]
pub enum CompletionError {
    /// More than one request completed.
    NotSingle,
    /// The request did not come back as three buffers.
    NotThreeBuffers,
    /// The device reported this status.
    Status(u8),
}

/// A VirtIO block device of `capacity_sectors` sectors.
pub struct BlockDevice {
    capacity_sectors: u64,
}

/// The sectors a transfer touches: from `start_sector`, `num_sectors` of
/// them, the transferred bytes starting `offset_in_first_sector` into the
/// first and `len` long.
#[derive(Clone, Copy, Debug, PartialEq, Eq, Structural)]
pub struct Transfer {
    pub start_sector: usize,
    pub offset_in_first_sector: usize,
    pub len: usize,
    pub num_sectors: usize,
}

/// The transfer of up to `len` bytes at `offset` on a device of `cap` bytes:
/// none at or past the end or when nothing is asked for, else the bytes up to
/// the end of the device, rounded out to whole sectors.
pub open spec fn transfer_for(cap: usize, offset: usize, len: usize) -> Option<Transfer> {
    if offset >= cap {
        None
    } else {
        let n = if len <= cap - offset {
            len
        } else {
            (cap - offset) as usize
        };
        if n == 0 {
            None
        } else {
            let end = offset + n;
            let end_sector = if end % 512 == 0 {
                end / 512
            } else {
                end / 512 + 1
            };
            Some(
                Transfer {
                    start_sector: (offset / 512) as usize,
                    offset_in_first_sector: (offset % 512) as usize,
                    len: n,
                    num_sectors: (end_sector - offset / 512) as usize,
                },
            )
        }
    }
}

/// The device size in bytes as the transfers see it.
pub open spec fn device_bytes(dev: BlockDevice) -> usize {
    (dev.sectors() * 512) as usize
}

/// A write must first read its sectors when it does not cover them whole.
pub open spec fn write_needs_read(t: Transfer) -> bool {
    t.offset_in_first_sector != 0 || (t.start_sector * 512 + t.offset_in_first_sector + t.len) % 512
        != 0
}

/// The header of a request of type `request_type` at `sector`.
pub open spec fn request_header(request_type: u32, sector: u64) -> Seq<u8> {
    word_bytes(request_type as u64) + word_bytes(sector)
}

impl BlockDevice {
    /// The capacity in sectors.
    pub closed spec fn sectors(&self) -> u64 {
        self.capacity_sectors
    }

    /// A device with `capacity_sectors` sectors.
    pub fn new(capacity_sectors: u64) -> (r: Self)
        ensures
            r.sectors() == capacity_sectors,
    {
        BlockDevice { capacity_sectors }
    }

    /// Whether the PCI ids name a VirtIO block device.
    pub fn is_virtio_block(vendor_id: u16, device_id: u16, subsystem_id: u16) -> (r: bool)
        ensures
            r == (vendor_id == crate::virtio::VIRTIO_VENDOR_ID && crate::virtio::VIRTIO_DEVICE_ID_FIRST
                <= device_id <= crate::virtio::VIRTIO_DEVICE_ID_LAST && subsystem_id
                == VIRTIO_BLOCK_SUBSYSTEM_ID),
    {
        is_virtio_device(vendor_id, device_id, subsystem_id, VIRTIO_BLOCK_SUBSYSTEM_ID)
    }

    /// Starts bringing up a block device with the capabilities `caps` (see
    /// `VirtioInit::step`).
    pub fn initialize(caps: Vec<VirtioCap>) -> (r: VirtioInit)
        ensures
            r.kind() == DeviceKind::Block,
            r.caps() == caps@,
            r.state().phase == InitPhase::Start,
            r.state().capacity == 0,
            r.state().confirmed == 0,
    {
        VirtioInit::new(DeviceKind::Block, caps)
    }

    /// The device a finished bring-up produced, with the capacity it read.
    pub fn from_init(init: &VirtioInit) -> (r: Option<Self>)
        ensures
            match r {
                Some(d) => init.kind() == DeviceKind::Block && init.state().phase == InitPhase::Ready
                    && d.sectors() == init.state().capacity,
                None => !(init.kind() == DeviceKind::Block && init.state().phase == InitPhase::Ready),
            },
    {
        if init.device_kind() == DeviceKind::Block && init.phase() == InitPhase::Ready {
            Some(BlockDevice { capacity_sectors: init.capacity() })
        } else {
            None
        }
    }

    /// The capacity in sectors.
    pub fn capacity_sectors(&self) -> (r: u64)
        ensures
            r == self.sectors(),
    {
        self.capacity_sectors
    }

    /// The capacity in bytes.
    pub fn capacity_bytes(&self) -> (r: u64)
        requires
            self.sectors() * 512 <= u64::MAX,
        ensures
            r == self.sectors() * 512,
    {
        self.capacity_sectors * 512
    }

    /// The request reading `len` bytes from `start_sector` on: a header the
    /// driver writes, a buffer of `len` bytes and a status byte the device
    /// fills.
    pub fn read_sectors(&self, start_sector: u64, len: usize) -> (r: Vec<(Vec<u8>, BufferDirection)>)
        requires
            len % 512 == 0,
            start_sector + len / 512 <= self.sectors(),
        ensures
            r@.len() == 3,
            r@[0].0@ == request_header(VIRTIO_BLK_T_IN, start_sector),
            r@[0].1 == BufferDirection::DriverWritable,
            r@[1].0@ == zeros(len as nat),
            r@[1].1 == BufferDirection::DeviceWritable,
            r@[2].0@ == seq![0u8],
            r@[2].1 == BufferDirection::DeviceWritable,
    {
        let header = header_bytes(VIRTIO_BLK_T_IN, start_sector);
        let data = zero_vec(len);
        let mut status: Vec<u8> = Vec::new();
        status.push(0u8);
        let mut chain: Vec<(Vec<u8>, BufferDirection)> = Vec::new();
        chain.push((header, BufferDirection::DriverWritable));
        chain.push((data, BufferDirection::DeviceWritable));
        chain.push((status, BufferDirection::DeviceWritable));
        assert(chain@[2].0@ =~= seq![0u8]);
        chain
    }

    /// The request writing `data` from `start_sector` on: a header and the
    /// data the driver writes, and a status byte the device fills.
    pub fn write_sectors(&self, start_sector: u64, data: &[u8]) -> (r: Vec<(Vec<u8>, BufferDirection)>)
        requires
            data@.len() % 512 == 0,
            start_sector + data@.len() / 512 <= self.sectors(),
        ensures
            r@.len() == 3,
            r@[0].0@ == request_header(VIRTIO_BLK_T_OUT, start_sector),
            r@[0].1 == BufferDirection::DriverWritable,
            r@[1].0@ == data@,
            r@[1].1 == BufferDirection::DriverWritable,
            r@[2].0@ == seq![0u8],
            r@[2].1 == BufferDirection::DeviceWritable,
    {
        let header = header_bytes(VIRTIO_BLK_T_OUT, start_sector);
        let body = vstd::slice::slice_to_vec(data);
        let mut status: Vec<u8> = Vec::new();
        status.push(0u8);
        let mut chain: Vec<(Vec<u8>, BufferDirection)> = Vec::new();
        chain.push((header, BufferDirection::DriverWritable));
        chain.push((body, BufferDirection::DriverWritable));
        chain.push((status, BufferDirection::DeviceWritable));
        assert(chain@[2].0@ =~= seq![0u8]);
        chain
    }
}

/// What the completion of a request says: one request must have come back,
/// with its three buffers, and a status byte saying it succeeded.
pub open spec fn completion_outcome(completed: usize, buffers: Seq<Vec<u8>>) -> Result<(), CompletionError> {
    if completed != 1 {
        Err(CompletionError::NotSingle)
    } else if buffers.len() != 3 || buffers[2]@.len() == 0 {
        Err(CompletionError::NotThreeBuffers)
    } else if buffers[2]@[0] != VIRTIO_BLK_S_OK {
        Err(CompletionError::Status(buffers[2]@[0]))
    } else {
        Ok(())
    }
}

/// Checks what came back for a request: one request, three buffers, and the
/// status byte saying it succeeded.
pub fn check_completion(completed: usize, buffers: &Vec<Vec<u8>>) -> (r: Result<(), CompletionError>)
    ensures
        r == completion_outcome(completed, buffers@),
{
    if completed != 1 {
        return Err(CompletionError::NotSingle);
    }
    if buffers.len() != 3 {
        return Err(CompletionError::NotThreeBuffers);
    }
    if buffers[2].len() == 0 {
        return Err(CompletionError::NotThreeBuffers);
    }
    let status = buffers[2][0];
    if status != VIRTIO_BLK_S_OK {
        return Err(CompletionError::Status(status));
    }
    Ok(())
}

/// Finishes a read request: checks its completion (see `check_completion`)
/// and, when it succeeded, copies the sectors the device filled into `buf`.
pub fn finish_read(completed: usize, buffers: &Vec<Vec<u8>>, buf: &mut [u8]) -> (r: Result<(), CompletionError>)
    requires
        buffers@.len() == 3 ==> buffers@[1]@.len() == old(buf)@.len(),
    ensures
        r == completion_outcome(completed, buffers@),
        r is Ok ==> final(buf)@ == buffers@[1]@,
        r is Err ==> final(buf)@ == old(buf)@,
{
    match check_completion(completed, buffers) {
        Err(e) => Err(e),
        Ok(()) => {
            let data = &buffers[1];
            let n = buf.len();
            let mut i: usize = 0;
            while i < n
                invariant
                    n == old(buf)@.len(),
                    data@.len() == n,
                    buf@.len() == n,
                    i <= n,
                    forall|j: int| 0 <= j < i ==> buf@[j] == data@[j],
                decreases n - i,
            {
                buf[i] = data[i];
                i = i + 1;
            }
            assert(buf@ =~= data@);
            Ok(())
        },
    }
}

/// The 16 header bytes of a request.
fn header_bytes(request_type: u32, sector: u64) -> (r: Vec<u8>)
    ensures
        r@ == request_header(request_type, sector),
{
    let mut h = zero_vec(16);
    write_u64_le(h.as_mut_slice(), 0, request_type as u64);
    write_u64_le(h.as_mut_slice(), 8, sector);
    assert(h@ =~= request_header(request_type, sector));
    h
}

/// `len` zero bytes.
fn zero_vec(len: usize) -> (r: Vec<u8>)
    ensures
        r@ == zeros(len as nat),
{
    let mut v: Vec<u8> = Vec::new();
    let mut i: usize = 0;
    while i < len
        invariant
            i <= len,
            v@ == zeros(i as nat),
        decreases len - i,
    {
        v.push(0u8);
        i = i + 1;
        assert(v@ =~= zeros(i as nat));
    }
    v
}

/// Makes `device` the block device of the system.
pub fn assign_block_device(slot: &mut Option<BlockDevice>, device: BlockDevice)
    ensures
        *final(slot) == Some(device),
{
    *slot = Some(device);
}

/// The size of the block device in bytes, zero without one.
pub fn capacity(slot: &Option<BlockDevice>) -> (r: u64)
    requires
        slot matches Some(d) ==> d.sectors() * 512 <= u64::MAX,
    ensures
        r == match slot {
            Some(d) => d.sectors() * 512,
            None => 0,
        },
{
    match slot {
        Some(d) => d.capacity_bytes(),
        None => 0,
    }
}

proof fn lemma_transfer_fits(offset: usize, n: usize, end: usize, end_sector: int)
    requires
        end == offset + n,
        n > 0,
        end_sector == if end % 512 == 0 {
            (end / 512) as int
        } else {
            end / 512 + 1
        },
    ensures
        offset / 512 < end_sector,
        (end_sector - offset / 512) * 512 >= offset % 512 + n,
        offset % 512 == 0 && end % 512 == 0 ==> (end_sector - offset / 512) * 512 == n,
{
    assert(offset == (offset / 512) * 512 + offset % 512) by (nonlinear_arith);
    assert(end == (end / 512) * 512 + end % 512) by (nonlinear_arith);
    assert((end_sector - offset / 512) * 512 == end_sector * 512 - (offset / 512) * 512) by (
    nonlinear_arith);
}

/// Plans a transfer of up to `len` bytes at `offset`: `ENODEV` without a
/// device; nothing to do at or past its end or for no bytes.
pub fn transfer_plan(slot: &Option<BlockDevice>, offset: usize, len: usize) -> (r: Result<
    Option<Transfer>,
    Errno,
>)
    requires
        slot matches Some(d) ==> d.sectors() * 512 <= u64::MAX,
    ensures
        match slot {
            None => r == Err::<Option<Transfer>, Errno>(Errno::ENODEV),
            Some(d) => r == Ok::<Option<Transfer>, Errno>(transfer_for(device_bytes(*d), offset, len)),
        },
        r matches Ok(Some(t)) ==> t.num_sectors * 512 >= t.offset_in_first_sector + t.len
            && t.offset_in_first_sector < 512 && t.len > 0,
{
    let dev = match slot {
        Some(d) => d,
        None => {
            return Err(Errno::ENODEV);
        },
    };
    let cap = dev.capacity_bytes() as usize;
    if offset >= cap {
        return Ok(None);
    }
    let n = if len <= cap - offset {
        len
    } else {
        cap - offset
    };
    if n == 0 {
        return Ok(None);
    }
    let start_sector = offset / SECTOR_SIZE;
    let offset_in_first_sector = offset % SECTOR_SIZE;
    let end = offset + n;
    let end_sector = if end % SECTOR_SIZE == 0 {
        end / SECTOR_SIZE
    } else {
        end / SECTOR_SIZE + 1
    };
    proof {
        lemma_transfer_fits(offset, n, end, end_sector as int);
    }
    Ok(Some(Transfer { start_sector, offset_in_first_sector, len: n, num_sectors: end_sector - start_sector }))
}

/// Reads up to `buf.len()` bytes at `offset` from the block device, given
/// the content `sectors` of the sectors the planned transfer touches (see
/// `transfer_plan`).  Returns how many bytes were read.
pub fn read(slot: &Option<BlockDevice>, offset: usize, buf: &mut [u8], sectors: &[u8]) -> (r: Result<
    usize,
    Errno,
>)
    requires
        slot matches Some(d) ==> d.sectors() * 512 <= u64::MAX,
        slot matches Some(d) ==> (transfer_for(device_bytes(*d), offset, old(buf)@.len() as usize) matches Some(t)
            ==> sectors@.len() == t.num_sectors * 512),
    ensures
        final(buf)@.len() == old(buf)@.len(),
        match slot {
            None => r == Err::<usize, Errno>(Errno::ENODEV) && final(buf)@ == old(buf)@,
            Some(d) => match transfer_for(device_bytes(*d), offset, old(buf)@.len() as usize) {
                None => r == Ok::<usize, Errno>(0) && final(buf)@ == old(buf)@,
                Some(t) => {
                    &&& r == Ok::<usize, Errno>(t.len)
                    &&& forall|j: int|
                        0 <= j < t.len ==> final(buf)@[j] == sectors@[t.offset_in_first_sector + j]
                    &&& forall|j: int| t.len <= j < old(buf)@.len() ==> final(buf)@[j] == old(buf)@[j]
                },
            },
        },
{
    let t = match transfer_plan(slot, offset, buf.len()) {
        Err(e) => {
            return Err(e);
        },
        Ok(None) => {
            return Ok(0);
        },
        Ok(Some(t)) => t,
    };
    let slen = sectors.len();
    let mut i: usize = 0;
    while i < t.len
        invariant
            slen == sectors@.len(),
            t.offset_in_first_sector + t.len <= sectors@.len(),
            t.len <= old(buf)@.len(),
            i <= t.len,
            buf@.len() == old(buf)@.len(),
            forall|j: int| 0 <= j < i ==> buf@[j] == sectors@[t.offset_in_first_sector + j],
            forall|j: int| i <= j < old(buf)@.len() ==> buf@[j] == old(buf)@[j],
        decreases t.len - i,
    {
        buf[i] = sectors[t.offset_in_first_sector + i];
        i = i + 1;
    }
    Ok(t.len)
}

/// What a write sends to the device: the sectors from `start_sector` on.
pub struct SectorWrite {
    pub start_sector: u64,
    pub data: Vec<u8>,
}

/// The sector content a write sends: the sectors as they were (zeros when
/// the write covers them whole) with `data` laid over at its place.
pub open spec fn sectors_after_write(t: Transfer, existing: Seq<u8>, data: Seq<u8>) -> Seq<u8> {
    let base = if write_needs_read(t) {
        existing
    } else {
        zeros((t.num_sectors * 512) as nat)
    };
    base.take(t.offset_in_first_sector as int) + data.take(t.len as int) + base.skip(
        t.offset_in_first_sector + t.len,
    )
}

/// Writes up to `data.len()` bytes at `offset` to the block device.  When
/// the planned transfer does not cover its sectors whole, `existing` is their
/// current content.  Returns how many bytes are written and the sectors to
/// send to the device.
pub fn write(slot: &Option<BlockDevice>, offset: usize, data: &[u8], existing: &[u8]) -> (r: Result<
    (usize, Option<SectorWrite>),
    Errno,
>)
    requires
        slot matches Some(d) ==> d.sectors() * 512 <= u64::MAX,
        slot matches Some(d) ==> (transfer_for(device_bytes(*d), offset, data@.len() as usize) matches Some(t)
            ==> (write_needs_read(t) ==> existing@.len() == t.num_sectors * 512)),
    ensures
        match slot {
            None => r == Err::<(usize, Option<SectorWrite>), Errno>(Errno::ENODEV),
            Some(d) => match transfer_for(device_bytes(*d), offset, data@.len() as usize) {
                None => r matches Ok((0, None)),
                Some(t) => r matches Ok((n, Some(w))) && n == t.len && w.start_sector == t.start_sector
                    && w.data@ == sectors_after_write(t, existing@, data@),
            },
        },
{
    let t = match transfer_plan(slot, offset, data.len()) {
        Err(e) => {
            return Err(e);
        },
        Ok(None) => {
            return Ok((0, None));
        },
        Ok(Some(t)) => t,
    };
    let end = offset + t.len;
    let needs_read = t.offset_in_first_sector != 0 || end % SECTOR_SIZE != 0;
    proof {
        assert(offset == t.start_sector * 512 + t.offset_in_first_sector) by (nonlinear_arith)
            requires
                t.start_sector == offset / 512,
                t.offset_in_first_sector == offset % 512,
        ;
        assert(needs_read == write_needs_read(t));
        if !needs_read {
            lemma_transfer_fits(offset, t.len, end, t.num_sectors + offset / 512);
        }
    }
    let mut buf = if needs_read {
        vstd::slice::slice_to_vec(existing)
    } else {
        zero_vec(t.len)
    };
    let ghost base = buf@;
    let blen = buf.len();
    let mut i: usize = 0;
    while i < t.len
        invariant
            blen == base.len(),
            t.offset_in_first_sector + t.len <= base.len(),
            t.len <= data@.len(),
            i <= t.len,
            buf@.len() == base.len(),
            forall|j: int| 0 <= j < t.offset_in_first_sector ==> buf@[j] == base[j],
            forall|j: int| 0 <= j < i ==> buf@[t.offset_in_first_sector + j] == data@[j],
            forall|j: int| t.offset_in_first_sector + i <= j < base.len() ==> buf@[j] == base[j],
        decreases t.len - i,
    {
        buf.set(t.offset_in_first_sector + i, data[i]);
        i = i + 1;
    }
    assert(buf@ =~= sectors_after_write(t, existing@, data@));
    Ok((t.len, Some(SectorWrite { start_sector: t.start_sector as u64, data: buf })))
}


/// Reading back the sectors a write sends, over the same transfer, gives the
/// written bytes; the bytes of those sectors outside the transfer are kept
/// (or zero, when the write covers whole sectors).
pub proof fn lemma_read_back_written(t: Transfer, existing: Seq<u8>, data: Seq<u8>)
    requires
        t.len <= data.len(),
        t.offset_in_first_sector + t.len <= t.num_sectors * 512,
        write_needs_read(t) ==> existing.len() == t.num_sectors * 512,
    ensures
        ({
            let after = sectors_after_write(t, existing, data);
            &&& after.len() == t.num_sectors * 512
            &&& forall|j: int| 0 <= j < t.len ==> after[t.offset_in_first_sector + j] == data[j]
            &&& forall|j: int|
                0 <= j < t.offset_in_first_sector ==> after[j] == if write_needs_read(t) {
                    existing[j]
                } else {
                    0u8
                }
        }),
{
    let after = sectors_after_write(t, existing, data);
    assert forall|j: int| 0 <= j < t.len implies after[t.offset_in_first_sector + j] == data[j] by {
        assert(after[t.offset_in_first_sector + j] == data.take(t.len as int)[j]);
    }
}

} // verus!
