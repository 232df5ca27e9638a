//! CPU topology of the x86_64 boot configuration: one online CPU, and APIC
//! identifiers equal to CPU indices.

use vstd::prelude::*;

verus! {

/// The online CPUs (the boot CPU only).
pub fn online_cpus() -> (r: [u32; 1])
    ensures
        r@ == seq![0u32],
{
    [0]
}

/// Index of the running CPU (the boot CPU).
pub fn cpu_index_this() -> (r: usize)
    ensures
        r == 0,
{
    0
}

/// CPU index of an APIC identifier.
pub fn cpu_index_from_apic(apic_id: u32) -> (r: usize)
    ensures
        r == apic_id,
{
    apic_id as usize
}

/// APIC identifier of a CPU index (truncated to 32 bits).
pub fn apic_from_cpu_index(cpu_idx: usize) -> (r: u32)
    ensures
        r == cpu_idx as u32,
{
    cpu_idx as u32
}

/// Translating an APIC identifier to a CPU index and back is the identity.
pub proof fn lemma_apic_round_trip(apic_id: u32)
    ensures
        (apic_id as usize) as u32 == apic_id,
{
}

} // verus!
