use vstd::prelude::*;

use crate::util::{bit, lemma_set_bit};

verus! {

/// Bit of `sie` that enables timer interrupts.
pub const SIE_STIE: u64 = 5;
/// Bit of `sstatus` that makes `sret` return to supervisor mode.
pub const SSTATUS_SPP: u64 = 8;
/// Bit of `sip` of a pending software interrupt.
pub const SIP_SSIP: u64 = 1;
/// Size of the kernel stack of each CPU.
pub const KERNEL_STACK_SIZE: usize = 512 * 1024;

/// SBI extension id and function id of sending inter-processor interrupts.
pub const IPI_EID: u64 = 0x735049;
pub const IPI_FID_SEND_IPI: u64 = 0x0;

/// The registers of an SBI call.
#[derive(Debug, Clone, Copy, PartialEq, Eq, Structural)]
pub struct SbiCall {
    pub eid: u64,
    pub fid: u64,
    pub arg0: u64,
    pub arg1: u64,
    pub arg2: u64,
}

/// The SBI call that interrupts the harts in `hart_mask`, counted from
/// `hart_mask_base` (passed on bit for bit).
pub fn sbi_send_ipi(hart_mask: u64, hart_mask_base: i64) -> (r: SbiCall)
    ensures
        r.eid == IPI_EID,
        r.fid == IPI_FID_SEND_IPI,
        r.arg0 == hart_mask,
        r.arg1 == hart_mask_base as u64,
        r.arg2 == 0,
{
    SbiCall { eid: IPI_EID, fid: IPI_FID_SEND_IPI, arg0: hart_mask, arg1: hart_mask_base as u64, arg2: 0 }
}

/// The hart mask of every CPU numbered 1 to `number_cpus` but `cpu_id`.
pub fn ipi_mask(number_cpus: usize, cpu_id: usize) -> (r: u64)
    requires
        number_cpus <= 64,
        number_cpus == 64 ==> cpu_id == 64,
    ensures
        forall|b: u64| b < 64 ==> (bit(r, b) <==> (1 <= b <= number_cpus && b != cpu_id)),
{
    let mut mask: u64 = 0;
    let mut id: usize = 1;
    proof {
        assert forall|b: u64| b < 64 implies !bit(0u64, b) by {
            assert(!bit(0u64, b)) by (bit_vector)
                requires
                    b < 64,
            ;
        }
    }
    while id <= number_cpus
        invariant
            number_cpus <= 64,
            number_cpus == 64 ==> cpu_id == 64,
            1 <= id <= number_cpus + 1,
            forall|b: u64| b < 64 ==> (bit(mask, b) <==> (1 <= b < id && b != cpu_id)),
        decreases number_cpus + 1 - id,
    {
        if id != cpu_id {
            let p = id as u64;
            proof {
                lemma_set_bit(mask, p);
            }
            mask = mask | (1u64 << p);
        }
        id = id + 1;
    }
    mask
}

/// Whether timer interrupts are enabled in `sie`.
pub fn is_timer_enabled(sie: u64) -> (r: bool)
    ensures
        r == bit(sie, SIE_STIE),
{
    proof {
        assert(((sie & (1u64 << 5u64)) > 0) == bit(sie, 5)) by (bit_vector);
    }
    (sie & (1u64 << SIE_STIE)) > 0
}

/// Whether `sret` returns to supervisor mode according to `sstatus`.
pub fn is_in_kernel_mode(sstatus: u64) -> (r: bool)
    ensures
        r == bit(sstatus, SSTATUS_SPP),
{
    proof {
        assert(((sstatus & (1u64 << 8u64)) > 0) == bit(sstatus, 8)) by (bit_vector);
    }
    (sstatus & (1u64 << SSTATUS_SPP)) > 0
}

/// The lowest address of the kernel stack, which ends at the top of the
/// address space.
pub fn kernel_stack_start() -> (r: usize)
    ensures
        r == usize::MAX - KERNEL_STACK_SIZE + 1,
{
    0usize.wrapping_sub(KERNEL_STACK_SIZE)
}

} // verus!
