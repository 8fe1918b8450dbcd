use vstd::prelude::*;

verus! {

/// The owner a free lock records.
pub const NO_OWNER: usize = usize::MAX;

/// Spins between two warnings that a lock may be deadlocked.
pub const SPINS_PER_WARNING: u32 = 10_000_000;

/// Whether a CPU spinning for a lock should warn after `spin_count` spins:
/// every ten million spins.
pub fn spin_warning_due(spin_count: u32) -> (r: bool)
    ensures
        r == (spin_count % SPINS_PER_WARNING == 0),
{
    spin_count % SPINS_PER_WARNING == 0
}

/// Whether CPU `cpu_id` taking a lock would deadlock on itself: the lock is
/// held and its owner is that CPU.
pub fn same_cpu_deadlock(locked: bool, owner_cpu: usize, cpu_id: usize) -> (r: bool)
    ensures
        r == (locked && owner_cpu == cpu_id),
{
    locked && owner_cpu == cpu_id
}

} // verus!
