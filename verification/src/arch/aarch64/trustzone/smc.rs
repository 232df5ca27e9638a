//! SMC function identifiers and return codes of the secure services.

use vstd::prelude::*;

verus! {

/// Standard SMC calling convention function identifiers.
pub const CALL_COUNT: u32 = 0xFF00;

pub const CALL_UID: u32 = 0xFF01;

pub const CALL_REVISION: u32 = 0xFF03;

/// AI model verification.
pub const SIS_AI_VERIFY: u32 = 0xC2000000;

/// AI data encryption.
pub const SIS_AI_ENCRYPT: u32 = 0xC2000001;

/// AI computation attestation.
pub const SIS_AI_ATTEST: u32 = 0xC2000002;

/// Key derivation service.
pub const SIS_KEY_DERIVE: u32 = 0xC2000003;

/// Hardware random numbers.
pub const SIS_SECURE_RAND: u32 = 0xC2000004;

/// TPM attestation quote.
pub const SIS_TPM_QUOTE: u32 = 0xC2000005;

/// Return codes.
pub const SUCCESS: i64 = 0;

pub const NOT_SUPPORTED: i64 = -1;

pub const INVALID_PARAMS: i64 = -2;

pub const NO_MEMORY: i64 = -3;

pub const ALREADY_DONE: i64 = -4;

pub const NOT_PERMITTED: i64 = -5;

} // verus!
