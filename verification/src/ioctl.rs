use vstd::prelude::*;

use crate::headers::Ifreq;

verus! {

pub const SOLAYA_PANIC: u32 = 0x5301;
pub const SOLAYA_LIST_PROGRAMS: u32 = 0x5302;
pub const SIOCGIFHWADDR: u32 = 0x8927;
pub const SIOCSIFADDR: u32 = 0x8916;
pub const ARPHRD_ETHER: u16 = 1;

/// Address family of IPv4 socket addresses.
pub const AF_INET: u8 = 2;

/// An interface request with every byte zero.
pub fn empty_ifreq() -> (r: Ifreq)
    ensures
        forall|i: int| 0 <= i < 16 ==> r.ifr_name[i] == 0 && r.ifr_data[i] == 0,
{
    Ifreq { ifr_name: [0u8; 16], ifr_data: [0u8; 16] }
}

/// The hardware address carried by a `SIOCGIFHWADDR` answer: it follows the
/// two bytes of the address family.  `None` when the call failed.
pub fn get_mac_address(ret: isize, ifreq: &Ifreq) -> (r: Option<[u8; 6]>)
    ensures
        ret != 0 ==> r is None,
        ret == 0 ==> (r matches Some(mac) && forall|i: int| 0 <= i < 6 ==> mac[i] == ifreq.ifr_data[i
            + 2]),
{
    if ret != 0 {
        return None;
    }
    let mut mac = [0u8; 6];
    let mut i: usize = 0;
    while i < 6
        invariant
            i <= 6,
            forall|j: int| 0 <= j < i ==> mac[j] == ifreq.ifr_data[j + 2],
        decreases 6 - i,
    {
        mac[i] = ifreq.ifr_data[i + 2];
        i = i + 1;
    }
    Some(mac)
}

/// The `SIOCSIFADDR` request for IPv4 address `ip`: family `AF_INET` in
/// little endian, port zero, then the four address bytes.
pub fn set_ip_address(ip: [u8; 4]) -> (r: Ifreq)
    ensures
        r.ifr_data[0] == AF_INET,
        r.ifr_data[1] == 0,
        r.ifr_data[2] == 0 && r.ifr_data[3] == 0,
        forall|i: int| 0 <= i < 4 ==> r.ifr_data[i + 4] == ip[i],
        forall|i: int| 8 <= i < 16 ==> r.ifr_data[i] == 0,
        forall|i: int| 0 <= i < 16 ==> r.ifr_name[i] == 0,
{
    let mut ifreq = empty_ifreq();
    ifreq.ifr_data[0] = AF_INET;
    ifreq.ifr_data[1] = 0;
    let mut i: usize = 0;
    while i < 4
        invariant
            i <= 4,
            ifreq.ifr_data[0] == AF_INET,
            ifreq.ifr_data[1] == 0,
            ifreq.ifr_data[2] == 0 && ifreq.ifr_data[3] == 0,
            forall|j: int| 0 <= j < i ==> ifreq.ifr_data[j + 4] == ip[j],
            forall|j: int| i + 4 <= j < 16 ==> ifreq.ifr_data[j] == 0,
            forall|j: int| 0 <= j < 16 ==> ifreq.ifr_name[j] == 0,
        decreases 4 - i,
    {
        ifreq.ifr_data[i + 4] = ip[i];
        i = i + 1;
    }
    ifreq
}

} // verus!
