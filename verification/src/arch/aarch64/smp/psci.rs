//! PSCI function identifiers and return codes.

use vstd::prelude::*;

verus! {

pub const PSCI_VERSION: u32 = 0x84000000;

pub const PSCI_CPU_ON: u32 = 0xC4000003;

pub const PSCI_CPU_OFF: u32 = 0x84000002;

pub const PSCI_CPU_SUSPEND: u32 = 0xC4000001;

pub const PSCI_SYSTEM_RESET: u32 = 0x84000009;

pub const PSCI_SYSTEM_OFF: u32 = 0x84000008;

pub const PSCI_FEATURES: u32 = 0x8400000A;

/// PSCI return codes.
pub const SUCCESS: i32 = 0;

pub const NOT_SUPPORTED: i32 = -1;

pub const INVALID_PARAMS: i32 = -2;

pub const DENIED: i32 = -3;

pub const ALREADY_ON: i32 = -4;

pub const ON_PENDING: i32 = -5;

pub const INTERNAL_FAILURE: i32 = -6;

pub const NOT_PRESENT: i32 = -7;

pub const DISABLED: i32 = -8;

} // verus!
