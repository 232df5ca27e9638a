//! ARM64 CPU identification: the core type from `MIDR_EL1` and the CPU
//! number from `MPIDR_EL1`.  The platform layer reads the registers.

use vstd::prelude::*;

verus! {

/// ARM64 core types the scheduler distinguishes.
#[derive(Clone, Copy, Debug, PartialEq, Eq, Structural)]
pub enum ARM64CoreType {
    CortexA55,
    CortexA72,
    CortexA76,
    AppleFirestorm,
    AppleIcestorm,
}

/// Affinity level 0 of `MPIDR_EL1`, the CPU number within its cluster.
pub open spec fn aff0(mpidr: u64) -> u32 {
    (mpidr & 0xFF) as u32
}

/// The CPU number that `MPIDR_EL1` holds in its affinity level 0.
pub fn get_cpu_id(mpidr: u64) -> (r: u32)
    ensures
        r == aff0(mpidr),
{
    (mpidr & 0xFF) as u32
}

/// The core type named by `MIDR_EL1`: three Cortex parts by number, Apple
/// cores split into performance (CPUs 0-3) and efficiency cores, and the
/// Cortex-A72 for anything else.
pub open spec fn core_type_of(midr: u64, mpidr: u64) -> ARM64CoreType {
    let implementer = (midr >> 24u64) & 0xFF;
    let part = (midr >> 4u64) & 0xFFF;
    if implementer == 0x41 && part == 0xD05 {
        ARM64CoreType::CortexA55
    } else if implementer == 0x41 && part == 0xD08 {
        ARM64CoreType::CortexA72
    } else if implementer == 0x41 && part == 0xD0B {
        ARM64CoreType::CortexA76
    } else if implementer == 0x61 {
        if aff0(mpidr) < 4 {
            ARM64CoreType::AppleFirestorm
        } else {
            ARM64CoreType::AppleIcestorm
        }
    } else {
        ARM64CoreType::CortexA72
    }
}

/// Detects the core type from `MIDR_EL1` (`midr`) and `MPIDR_EL1` (`mpidr`).
pub fn detect_core_type(midr: u64, mpidr: u64) -> (r: ARM64CoreType)
    ensures
        r == core_type_of(midr, mpidr),
{
    let implementer = (midr >> 24u64) & 0xFF;
    let part_num = (midr >> 4u64) & 0xFFF;
    if implementer == 0x41 && part_num == 0xD05 {
        ARM64CoreType::CortexA55
    } else if implementer == 0x41 && part_num == 0xD08 {
        ARM64CoreType::CortexA72
    } else if implementer == 0x41 && part_num == 0xD0B {
        ARM64CoreType::CortexA76
    } else if implementer == 0x61 {
        if get_cpu_id(mpidr) < 4 {
            ARM64CoreType::AppleFirestorm
        } else {
            ARM64CoreType::AppleIcestorm
        }
    } else {
        ARM64CoreType::CortexA72
    }
}

} // verus!
