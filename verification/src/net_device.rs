use vstd::prelude::*;

use crate::loader::zeros;
use crate::virtio::{DeviceKind, InitPhase, VirtioCap, VirtioInit};

verus! {

/// Length of the header the device puts before each frame.
pub const NET_HDR_LEN: usize = 12;
/// The header's "no segmentation offload" value.
pub const VIRTIO_NET_HDR_GSO_NONE: u8 = 0;
/// Bytes of a receive buffer.
pub const RECEIVE_BUFFER_SIZE: usize = 1526;
/// Receive buffers handed to the device.
pub const RECEIVE_BUFFER_COUNT: usize = 256;

/// An Ethernet hardware address.
#[derive(Clone, Copy, Debug)]
pub struct MacAddress(pub [u8; 6]);

/// Why a received buffer is no frame the driver accepts.
#[derive(Clone, Copy, Debug, PartialEq, Eq, Structural)]
pub enum FrameError {
    /// Shorter than the header.
    TooShort,
    /// The header asks for segmentation offload or carries flags.
    UnsupportedHeader,
}

/// `buf` is a buffer the driver accepts and `frame` is the frame it carries.
pub open spec fn carries_frame(buf: Seq<u8>, frame: Seq<u8>) -> bool {
    &&& buf.len() >= NET_HDR_LEN
    &&& buf[0] == 0
    &&& buf[1] == VIRTIO_NET_HDR_GSO_NONE
    &&& frame == buf.skip(NET_HDR_LEN as int)
}

/// A VirtIO network device.
pub struct NetworkDevice {
    mac_address: MacAddress,
}

impl NetworkDevice {
    /// Its hardware address.
    pub closed spec fn mac(&self) -> MacAddress {
        self.mac_address
    }

    /// A device with hardware address `mac`.
    pub fn new(mac: MacAddress) -> (r: Self)
        ensures
            r.mac() == mac,
    {
        NetworkDevice { mac_address: mac }
    }

    /// Starts bringing up a network device with the capabilities `caps` (see
    /// `VirtioInit::step`).
    pub fn initialize(caps: Vec<VirtioCap>) -> (r: VirtioInit)
        ensures
            r.kind() == DeviceKind::Network,
            r.caps() == caps@,
            r.state().phase == InitPhase::Start,
            r.state().confirmed == 0,
    {
        VirtioInit::new(DeviceKind::Network, caps)
    }

    /// The device a finished bring-up produced, with the address it read.
    pub fn from_init(init: &VirtioInit) -> (r: Option<Self>)
        ensures
            match r {
                Some(d) => init.kind() == DeviceKind::Network && init.state().phase == InitPhase::Ready
                    && d.mac().0 == init.state().mac,
                None => !(init.kind() == DeviceKind::Network && init.state().phase
                    == InitPhase::Ready),
            },
    {
        if init.device_kind() == DeviceKind::Network && init.phase() == InitPhase::Ready {
            Some(NetworkDevice { mac_address: MacAddress(init.mac()) })
        } else {
            None
        }
    }

    /// A receive buffer as handed to the device: every byte 0xff.
    pub fn receive_buffer() -> (r: Vec<u8>)
        ensures
            r@ == Seq::new(RECEIVE_BUFFER_SIZE as nat, |i: int| 0xffu8),
    {
        let mut v: Vec<u8> = Vec::new();
        let mut i: usize = 0;
        while i < RECEIVE_BUFFER_SIZE
            invariant
                i <= RECEIVE_BUFFER_SIZE,
                v@ == Seq::new(i as nat, |k: int| 0xffu8),
            decreases RECEIVE_BUFFER_SIZE - i,
        {
            v.push(0xffu8);
            i = i + 1;
            assert(v@ =~= Seq::new(i as nat, |k: int| 0xffu8));
        }
        v
    }

    /// The frame carried by a buffer the device filled: what follows the
    /// header, provided the header asks for nothing the driver does not do.
    pub fn receive_packet(buffer: &[u8]) -> (r: Result<Vec<u8>, FrameError>)
        ensures
            buffer@.len() < NET_HDR_LEN ==> r == Err::<Vec<u8>, FrameError>(FrameError::TooShort),
            buffer@.len() >= NET_HDR_LEN ==> match r {
                Ok(data) => buffer@[0] == 0 && buffer@[1] == VIRTIO_NET_HDR_GSO_NONE && data@
                    == buffer@.skip(NET_HDR_LEN as int),
                Err(e) => e == FrameError::UnsupportedHeader && !(buffer@[0] == 0 && buffer@[1]
                    == VIRTIO_NET_HDR_GSO_NONE),
            },
    {
        if buffer.len() < NET_HDR_LEN {
            return Err(FrameError::TooShort);
        }
        let flags = buffer[0];
        let gso_type = buffer[1];
        if gso_type != VIRTIO_NET_HDR_GSO_NONE || flags != 0 {
            return Err(FrameError::UnsupportedHeader);
        }
        let data = vstd::slice::slice_to_vec(vstd::slice::slice_subrange(buffer, NET_HDR_LEN, buffer.len()));
        assert(data@ =~= buffer@.skip(NET_HDR_LEN as int));
        Ok(data)
    }

    /// The frames carried by the buffers the device filled, in order.
    pub fn receive_packets(&mut self, buffers: &Vec<Vec<u8>>) -> (r: Result<Vec<Vec<u8>>, FrameError>)
        ensures
            final(self).mac() == old(self).mac(),
            match r {
                Ok(frames) => frames@.len() == buffers@.len() && forall|i: int|
                    0 <= i < buffers@.len() ==> carries_frame(buffers@[i]@, (#[trigger] frames@[i])@),
                Err(_) => exists|i: int|
                    0 <= i < buffers@.len() && !(#[trigger] buffers@[i]@.len() >= NET_HDR_LEN
                        && buffers@[i]@[0] == 0 && buffers@[i]@[1] == VIRTIO_NET_HDR_GSO_NONE),
            },
    {
        let mut frames: Vec<Vec<u8>> = Vec::new();
        let mut i: usize = 0;
        while i < buffers.len()
            invariant
                i <= buffers@.len(),
                frames@.len() == i,
                forall|k: int| 0 <= k < i ==> carries_frame(buffers@[k]@, (#[trigger] frames@[k])@),
            decreases buffers@.len() - i,
        {
            let ghost before = frames@;
            match Self::receive_packet(buffers[i].as_slice()) {
                Ok(data) => {
                    frames.push(data);
                    assert forall|k: int| 0 <= k < i + 1 implies carries_frame(
                        buffers@[k]@,
                        (#[trigger] frames@[k])@,
                    ) by {
                        if k < i {
                            assert(frames@[k] == before[k]);
                        }
                    }
                },
                Err(e) => {
                    assert(!(buffers@[i as int]@.len() >= NET_HDR_LEN && buffers@[i as int]@[0] == 0
                        && buffers@[i as int]@[1] == VIRTIO_NET_HDR_GSO_NONE));
                    return Err(e);
                },
            }
            i = i + 1;
        }
        Ok(frames)
    }

    /// The buffer that sends `data`: a header asking for nothing, then the
    /// frame.
    pub fn send_packet(&mut self, data: Vec<u8>) -> (r: Vec<u8>)
        ensures
            final(self).mac() == old(self).mac(),
            r@ == zeros(NET_HDR_LEN as nat) + data@,
    {
        let mut out: Vec<u8> = Vec::new();
        let mut i: usize = 0;
        while i < NET_HDR_LEN
            invariant
                i <= NET_HDR_LEN,
                out@ == zeros(i as nat),
            decreases NET_HDR_LEN - i,
        {
            out.push(0u8);
            i = i + 1;
            assert(out@ =~= zeros(i as nat));
        }
        let mut j: usize = 0;
        while j < data.len()
            invariant
                j <= data@.len(),
                out@ == zeros(NET_HDR_LEN as nat) + data@.take(j as int),
            decreases data@.len() - j,
        {
            out.push(data[j]);
            proof {
                assert(data@.take(j + 1) =~= data@.take(j as int).push(data@[j as int]));
            }
            j = j + 1;
            assert(out@ =~= zeros(NET_HDR_LEN as nat) + data@.take(j as int));
        }
        assert(data@.take(data@.len() as int) =~= data@);
        out
    }

    /// The device's hardware address.
    pub fn get_mac_address(&self) -> (r: MacAddress)
        ensures
            r == self.mac(),
    {
        self.mac_address
    }
}

/// The network device of the system and its address.
pub struct NetworkStack {
    device: Option<NetworkDevice>,
    ip_addr: [u8; 4],
}

impl NetworkStack {
    /// The device, if one was assigned.
    pub closed spec fn device(&self) -> Option<NetworkDevice> {
        self.device
    }

    /// The IPv4 address of the system.
    pub closed spec fn ip(&self) -> [u8; 4] {
        self.ip_addr
    }

    /// No device yet, the address 10.0.2.15.
    pub fn new() -> (r: Self)
        ensures
            r.device() is None,
            r.ip()@ == seq![10u8, 0u8, 2u8, 15u8],
    {
        let r = NetworkStack { device: None, ip_addr: [10u8, 0u8, 2u8, 15u8] };
        assert(r.ip_addr@ =~= seq![10u8, 0u8, 2u8, 15u8]);
        r
    }

    /// The IPv4 address of the system.
    pub fn ip_addr(&self) -> (r: [u8; 4])
        ensures
            r == self.ip(),
    {
        self.ip_addr
    }

    /// Makes `device` the network device.
    pub fn assign_network_device(&mut self, device: NetworkDevice)
        ensures
            final(self).device() == Some(device),
            final(self).ip() == old(self).ip(),
    {
        self.device = Some(device);
    }

    /// The address of the network device; there must be one.
    pub fn current_mac_address(&self) -> (r: MacAddress)
        requires
            self.device() is Some,
        ensures
            r == self.device()->Some_0.mac(),
    {
        match &self.device {
            Some(d) => d.get_mac_address(),
            None => MacAddress([0u8; 6]),
        }
    }

    /// The buffer that sends `packet` on the network device; there must be
    /// one.
    pub fn send_packet(&mut self, packet: Vec<u8>) -> (r: Vec<u8>)
        requires
            old(self).device() is Some,
        ensures
            final(self).device() == old(self).device(),
            final(self).ip() == old(self).ip(),
            r@ == zeros(NET_HDR_LEN as nat) + packet@,
    {
        match &mut self.device {
            Some(d) => d.send_packet(packet),
            None => Vec::new(),
        }
    }
}


/// A frame sent is the frame received: the buffer `send_packet` builds
/// carries exactly the frame it was given.
pub proof fn lemma_send_then_receive(data: Seq<u8>)
    ensures
        carries_frame(zeros(NET_HDR_LEN as nat) + data, data),
{
    let b = zeros(NET_HDR_LEN as nat) + data;
    assert(b[0] == 0u8);
    assert(b[1] == 0u8);
    assert(b.skip(NET_HDR_LEN as int) =~= data);
}

} // verus!
