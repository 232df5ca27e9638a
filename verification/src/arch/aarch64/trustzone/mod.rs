//! ARM TrustZone: the normal world's side of the secure services.
//!
//! Each service checks that it is available, builds the secure monitor call
//! with its arguments, has the platform perform the call, keeps the call
//! statistics and decodes the reply.  The platform performs an SMC through
//! the function it passes in, which answers the reply registers and the
//! cycles the call took; buffers that the secure world reads or fills are
//! the platform's and are named by their addresses.

use vstd::prelude::*;

pub mod smc;

verus! {

/// SMC call statistics for monitoring.
#[derive(Clone, Copy, Debug, PartialEq, Eq, Structural)]
pub struct SmcStatistics {
    pub total_calls: u64,
    pub ai_verify_calls: u64,
    pub key_derive_calls: u64,
    pub failed_calls: u64,
    pub avg_latency_cycles: u32,
}

impl Default for SmcStatistics {
    fn default() -> (r: Self)
        ensures
            r == (SmcStatistics {
                total_calls: 0,
                ai_verify_calls: 0,
                key_derive_calls: 0,
                failed_calls: 0,
                avg_latency_cycles: 0,
            }),
    {
        SmcStatistics { total_calls: 0, ai_verify_calls: 0, key_derive_calls: 0, failed_calls: 0, avg_latency_cycles: 0 }
    }
}

/// Security configuration.
#[derive(Clone, Copy, Debug, PartialEq, Eq, Structural)]
pub struct SecurityConfig {
    pub ai_model_verification: bool,
    pub secure_key_storage: bool,
    pub hardware_attestation: bool,
    /// Security level (1-4).
    pub security_level: u8,
}

impl Default for SecurityConfig {
    fn default() -> (r: Self)
        ensures
            r == (SecurityConfig {
                ai_model_verification: true,
                secure_key_storage: true,
                hardware_attestation: true,
                security_level: 3,
            }),
    {
        SecurityConfig {
            ai_model_verification: true,
            secure_key_storage: true,
            hardware_attestation: true,
            security_level: 3,
        }
    }
}

/// SMC call parameters.
#[derive(Clone, Copy, Debug, PartialEq, Eq, Structural)]
pub struct SmcCall {
    pub function_id: u32,
    pub arg0: u64,
    pub arg1: u64,
    pub arg2: u64,
    pub arg3: u64,
    pub arg4: u64,
    pub arg5: u64,
    pub arg6: u64,
}

/// SMC call result.
#[derive(Clone, Copy, Debug, PartialEq, Eq, Structural)]
pub struct SmcResult {
    pub ret0: i64,
    pub ret1: u64,
    pub ret2: u64,
    pub ret3: u64,
}

/// TrustZone configuration and state.
pub struct TrustZone {
    pub available: bool,
    pub secure_entry: u64,
    pub smc_stats: SmcStatistics,
    pub security_config: SecurityConfig,
}

/// A call of `function_id` with the given first arguments, the rest zero.
pub open spec fn smc_call(function_id: u32, a0: u64, a1: u64, a2: u64, a3: u64, a4: u64) -> SmcCall {
    SmcCall { function_id, arg0: a0, arg1: a1, arg2: a2, arg3: a3, arg4: a4, arg5: 0, arg6: 0 }
}

/// Statistics after one call that took `latency` cycles and answered `ret0`:
/// one more call, one more failure when `ret0` is negative, and the average
/// latency moved halfway towards the call's latency (taken as 32 bits).
pub open spec fn stats_after_call(s: SmcStatistics, latency: u64, ret0: i64) -> SmcStatistics {
    SmcStatistics {
        total_calls: s.total_calls.wrapping_add(1),
        failed_calls: if ret0 < 0 {
            s.failed_calls.wrapping_add(1)
        } else {
            s.failed_calls
        },
        avg_latency_cycles: ((s.avg_latency_cycles + (latency as u32)) / 2) as u32,
        ..s
    }
}

/// `smc` may answer `res` after `lat` cycles when asked `call`.
pub open spec fn smc_answers<F: Fn(SmcCall) -> (SmcResult, u64)>(smc: F, call: SmcCall, res: SmcResult, lat: u64) -> bool {
    smc.ensures((call,), (res, lat))
}

/// The exception level that `CurrentEL` holds.
pub open spec fn el_of(currentel: u64) -> u32 {
    ((currentel >> 2u64) & 0x3) as u32
}

/// EL3 is implemented unless `ID_AA64PFR0_EL1.EL3` reads 0xF.
pub open spec fn el3_missing(id_aa64pfr0: u64) -> bool {
    (id_aa64pfr0 >> 12u64) & 0xF == 0xF
}

/// Reply of the model verification service.
pub open spec fn verify_outcome(res: SmcResult) -> Result<bool, &'static str> {
    if res.ret0 == smc::SUCCESS {
        Ok(res.ret1 == 1)
    } else if res.ret0 == smc::INVALID_PARAMS {
        Err("Invalid model parameters")
    } else if res.ret0 == smc::NOT_PERMITTED {
        Err("Model verification not permitted")
    } else {
        Err("AI model verification failed")
    }
}

/// Reply of the key derivation service.
pub open spec fn derive_outcome(res: SmcResult) -> Result<(), &'static str> {
    if res.ret0 == smc::SUCCESS {
        Ok(())
    } else if res.ret0 == smc::INVALID_PARAMS {
        Err("Invalid key derivation parameters")
    } else if res.ret0 == smc::NO_MEMORY {
        Err("Secure memory allocation failed")
    } else {
        Err("Key derivation failed")
    }
}

/// Reply of the random number service.
pub open spec fn random_outcome(res: SmcResult) -> Result<(), &'static str> {
    if res.ret0 == smc::SUCCESS {
        Ok(())
    } else if res.ret0 == smc::INVALID_PARAMS {
        Err("Invalid random buffer parameters")
    } else {
        Err("Secure random generation failed")
    }
}

/// Reply of the attestation service into a `buffer_len`-byte buffer: on
/// success the length of the quote, cut to the buffer.
pub open spec fn attestation_outcome(res: SmcResult, buffer_len: usize) -> Result<usize, &'static str> {
    if res.ret0 == smc::SUCCESS {
        Ok(if res.ret1 < buffer_len as u64 {
            res.ret1 as usize
        } else {
            buffer_len
        })
    } else if res.ret0 == smc::INVALID_PARAMS {
        Err("Invalid attestation parameters")
    } else if res.ret0 == smc::NO_MEMORY {
        Err("Attestation buffer too small")
    } else {
        Err("Hardware attestation failed")
    }
}

/// The exception level that the `CurrentEL` register value holds.
pub fn get_current_el(currentel: u64) -> (r: u32)
    ensures
        r == el_of(currentel),
{
    ((currentel >> 2u64) & 0x3) as u32
}

impl TrustZone {
    /// Not yet probed, with the default security configuration.
    pub fn new() -> (r: Self)
        ensures
            !r.available,
            r.secure_entry == 0,
            r.smc_stats == (SmcStatistics {
                total_calls: 0,
                ai_verify_calls: 0,
                key_derive_calls: 0,
                failed_calls: 0,
                avg_latency_cycles: 0,
            }),
            r.security_config == (SecurityConfig {
                ai_model_verification: true,
                secure_key_storage: true,
                hardware_attestation: true,
                security_level: 3,
            }),
    {
        TrustZone {
            available: false,
            secure_entry: 0,
            smc_stats: SmcStatistics::default(),
            security_config: SecurityConfig::default(),
        }
    }

    /// Performs `call` through `smc` and records it in the statistics.
    pub fn call_smc<F: Fn(SmcCall) -> (SmcResult, u64)>(&mut self, call: SmcCall, smc: &F) -> (r: SmcResult)
        requires
            smc.requires((call,)),
        ensures
            exists|lat: u64| #[trigger]
                smc_answers(*smc, call, r, lat) && final(self).smc_stats == stats_after_call(
                    old(self).smc_stats,
                    lat,
                    r.ret0,
                ),
            final(self).available == old(self).available,
            final(self).secure_entry == old(self).secure_entry,
            final(self).security_config == old(self).security_config,
    {
        let (result, latency) = smc(call);
        let mut s = self.smc_stats;
        s.total_calls = s.total_calls.wrapping_add(1);
        let lat32 = latency as u32;
        s.avg_latency_cycles = ((s.avg_latency_cycles as u64 + lat32 as u64) / 2) as u32;
        if result.ret0 < 0 {
            s.failed_calls = s.failed_calls.wrapping_add(1);
        }
        self.smc_stats = s;
        proof {
            assert(smc_answers(*smc, call, result, latency));
        }
        result
    }

    /// Probes TrustZone: it needs EL1 (`currentel` is the `CurrentEL`
    /// register) and EL3 (`id_aa64pfr0` is `ID_AA64PFR0_EL1`); the secure
    /// services are available when the call-count query succeeds.
    pub fn init<F: Fn(SmcCall) -> (SmcResult, u64)>(&mut self, currentel: u64, id_aa64pfr0: u64, smc: &F) -> (r: Result<
        (),
        &'static str,
    >)
        requires
            forall|c: SmcCall| smc.requires((c,)),
        ensures
            el_of(currentel) != 1 ==> r == Err::<(), &'static str>("TrustZone requires EL1") && *final(self) == *old(self),
            el_of(currentel) == 1 && el3_missing(id_aa64pfr0) ==> r == Err::<(), &'static str>(
                "EL3 not implemented - TrustZone unavailable",
            ) && *final(self) == *old(self),
            el_of(currentel) == 1 && !el3_missing(id_aa64pfr0) ==> r == Ok::<(), &'static str>(()) && exists|
                res: SmcResult,
                lat: u64,
            |
                #[trigger] smc_answers(*smc, smc_call(smc::CALL_COUNT, 0, 0, 0, 0, 0), res, lat) && final(self).available == (
                res.ret0 == smc::SUCCESS) && final(self).smc_stats == stats_after_call(old(self).smc_stats, lat, res.ret0),
            final(self).secure_entry == old(self).secure_entry,
            final(self).security_config == old(self).security_config,
    {
        let current_el = get_current_el(currentel);
        if current_el != 1 {
            return Err("TrustZone requires EL1");
        }
        let el3_impl = (id_aa64pfr0 >> 12u64) & 0xF;
        if el3_impl == 0xF {
            return Err("EL3 not implemented - TrustZone unavailable");
        }
        let call = SmcCall {
            function_id: smc::CALL_COUNT,
            arg0: 0,
            arg1: 0,
            arg2: 0,
            arg3: 0,
            arg4: 0,
            arg5: 0,
            arg6: 0,
        };
        let ghost pre_stats = self.smc_stats;
        let test_result = self.call_smc(call, smc);
        self.available = test_result.ret0 == smc::SUCCESS;
        proof {
            let lat = choose|lat: u64|
                smc_answers(*smc, call, test_result, lat) && pre_stats == old(self).smc_stats && self.smc_stats
                    == stats_after_call(pre_stats, lat, test_result.ret0);
            assert(call == smc_call(smc::CALL_COUNT, 0, 0, 0, 0, 0));
            assert(smc_answers(*smc, smc_call(smc::CALL_COUNT, 0, 0, 0, 0, 0), test_result, lat));
        }
        Ok(())
    }

    /// Asks the secure world to verify the model whose 32-byte hash lies at
    /// `model_hash_addr`.
    pub fn verify_ai_model<F: Fn(SmcCall) -> (SmcResult, u64)>(
        &mut self,
        model_hash_addr: u64,
        model_size: usize,
        smc: &F,
    ) -> (r: Result<bool, &'static str>)
        requires
            forall|c: SmcCall| smc.requires((c,)),
        ensures
            final(self).available == old(self).available,
            final(self).secure_entry == old(self).secure_entry,
            final(self).security_config == old(self).security_config,
            !(old(self).available && old(self).security_config.ai_model_verification) ==> r == Err::<bool, &'static str>(
                "AI verification not available",
            ) && final(self).smc_stats == old(self).smc_stats,
            old(self).available && old(self).security_config.ai_model_verification ==> exists|res: SmcResult, lat: u64|
                #[trigger] smc_answers(*smc, smc_call(smc::SIS_AI_VERIFY, model_hash_addr, model_size as u64, 0, 0, 0), res, lat)
                    && r == verify_outcome(res) && final(self).smc_stats == stats_after_call(
                    SmcStatistics { ai_verify_calls: old(self).smc_stats.ai_verify_calls.wrapping_add(1), ..old(self).smc_stats },
                    lat,
                    res.ret0,
                ),
    {
        if !self.available || !self.security_config.ai_model_verification {
            return Err("AI verification not available");
        }
        self.smc_stats.ai_verify_calls = self.smc_stats.ai_verify_calls.wrapping_add(1);
        let call = SmcCall {
            function_id: smc::SIS_AI_VERIFY,
            arg0: model_hash_addr,
            arg1: model_size as u64,
            arg2: 0,
            arg3: 0,
            arg4: 0,
            arg5: 0,
            arg6: 0,
        };
        let ghost pre_stats = self.smc_stats;
        let result = self.call_smc(call, smc);
        proof {
            let lat = choose|lat: u64|
                smc_answers(*smc, call, result, lat) && self.smc_stats == stats_after_call(pre_stats, lat, result.ret0);
            assert(call == smc_call(smc::SIS_AI_VERIFY, model_hash_addr, model_size as u64, 0, 0, 0));
            assert(smc_answers(*smc, smc_call(smc::SIS_AI_VERIFY, model_hash_addr, model_size as u64, 0, 0, 0), result, lat));
        }
        if result.ret0 == smc::SUCCESS {
            Ok(result.ret1 == 1)
        } else if result.ret0 == smc::INVALID_PARAMS {
            Err("Invalid model parameters")
        } else if result.ret0 == smc::NOT_PERMITTED {
            Err("Model verification not permitted")
        } else {
            Err("AI model verification failed")
        }
    }

    /// Asks the secure world to derive key `key_id` for the context string
    /// at `context_addr` into the 32-byte buffer at `key_addr`.
    pub fn derive_ai_key<F: Fn(SmcCall) -> (SmcResult, u64)>(
        &mut self,
        context_addr: u64,
        context_len: usize,
        key_addr: u64,
        key_id: u32,
        smc: &F,
    ) -> (r: Result<(), &'static str>)
        requires
            forall|c: SmcCall| smc.requires((c,)),
        ensures
            final(self).available == old(self).available,
            final(self).secure_entry == old(self).secure_entry,
            final(self).security_config == old(self).security_config,
            !(old(self).available && old(self).security_config.secure_key_storage) ==> r == Err::<(), &'static str>(
                "Key derivation not available",
            ) && final(self).smc_stats == old(self).smc_stats,
            old(self).available && old(self).security_config.secure_key_storage ==> exists|res: SmcResult, lat: u64|
                #[trigger] smc_answers(
                    *smc,
                    smc_call(smc::SIS_KEY_DERIVE, key_id as u64, context_addr, context_len as u64, key_addr, 32),
                    res,
                    lat,
                ) && r == derive_outcome(res) && final(self).smc_stats == stats_after_call(
                    SmcStatistics { key_derive_calls: old(self).smc_stats.key_derive_calls.wrapping_add(1), ..old(self).smc_stats },
                    lat,
                    res.ret0,
                ),
    {
        if !self.available || !self.security_config.secure_key_storage {
            return Err("Key derivation not available");
        }
        self.smc_stats.key_derive_calls = self.smc_stats.key_derive_calls.wrapping_add(1);
        let call = SmcCall {
            function_id: smc::SIS_KEY_DERIVE,
            arg0: key_id as u64,
            arg1: context_addr,
            arg2: context_len as u64,
            arg3: key_addr,
            arg4: 32,
            arg5: 0,
            arg6: 0,
        };
        let ghost pre_stats = self.smc_stats;
        let result = self.call_smc(call, smc);
        proof {
            let lat = choose|lat: u64|
                smc_answers(*smc, call, result, lat) && self.smc_stats == stats_after_call(pre_stats, lat, result.ret0);
            assert(call == smc_call(smc::SIS_KEY_DERIVE, key_id as u64, context_addr, context_len as u64, key_addr, 32));
            assert(smc_answers(*smc, smc_call(smc::SIS_KEY_DERIVE, key_id as u64, context_addr, context_len as u64, key_addr, 32), result, lat));
        }
        if result.ret0 == smc::SUCCESS {
            Ok(())
        } else if result.ret0 == smc::INVALID_PARAMS {
            Err("Invalid key derivation parameters")
        } else if result.ret0 == smc::NO_MEMORY {
            Err("Secure memory allocation failed")
        } else {
            Err("Key derivation failed")
        }
    }

    /// Asks the secure world to fill the buffer at `buffer_addr` with
    /// `buffer_len` random bytes.
    pub fn get_secure_random<F: Fn(SmcCall) -> (SmcResult, u64)>(
        &mut self,
        buffer_addr: u64,
        buffer_len: usize,
        smc: &F,
    ) -> (r: Result<(), &'static str>)
        requires
            forall|c: SmcCall| smc.requires((c,)),
        ensures
            final(self).available == old(self).available,
            final(self).secure_entry == old(self).secure_entry,
            final(self).security_config == old(self).security_config,
            !old(self).available ==> r == Err::<(), &'static str>("Secure random not available") && final(self).smc_stats
                == old(self).smc_stats,
            old(self).available ==> exists|res: SmcResult, lat: u64|
                #[trigger] smc_answers(*smc, smc_call(smc::SIS_SECURE_RAND, buffer_addr, buffer_len as u64, 0, 0, 0), res, lat)
                    && r == random_outcome(res) && final(self).smc_stats == stats_after_call(old(self).smc_stats, lat, res.ret0),
    {
        if !self.available {
            return Err("Secure random not available");
        }
        let call = SmcCall {
            function_id: smc::SIS_SECURE_RAND,
            arg0: buffer_addr,
            arg1: buffer_len as u64,
            arg2: 0,
            arg3: 0,
            arg4: 0,
            arg5: 0,
            arg6: 0,
        };
        let ghost pre_stats = self.smc_stats;
        let result = self.call_smc(call, smc);
        proof {
            let lat = choose|lat: u64|
                smc_answers(*smc, call, result, lat) && self.smc_stats == stats_after_call(pre_stats, lat, result.ret0);
            assert(call == smc_call(smc::SIS_SECURE_RAND, buffer_addr, buffer_len as u64, 0, 0, 0));
            assert(smc_answers(*smc, smc_call(smc::SIS_SECURE_RAND, buffer_addr, buffer_len as u64, 0, 0, 0), result, lat));
        }
        if result.ret0 == smc::SUCCESS {
            Ok(())
        } else if result.ret0 == smc::INVALID_PARAMS {
            Err("Invalid random buffer parameters")
        } else {
            Err("Secure random generation failed")
        }
    }

    /// Asks the secure world for an attestation quote over the 16-byte nonce
    /// and the 32-byte computation hash, written into the `quote_len`-byte
    /// buffer at `quote_addr`; answers the quote's length, which the buffer
    /// bounds.
    pub fn get_ai_attestation<F: Fn(SmcCall) -> (SmcResult, u64)>(
        &mut self,
        nonce_addr: u64,
        computation_hash_addr: u64,
        quote_addr: u64,
        quote_len: usize,
        smc: &F,
    ) -> (r: Result<usize, &'static str>)
        requires
            forall|c: SmcCall| smc.requires((c,)),
        ensures
            final(self).available == old(self).available,
            final(self).secure_entry == old(self).secure_entry,
            final(self).security_config == old(self).security_config,
            !(old(self).available && old(self).security_config.hardware_attestation) ==> r == Err::<usize, &'static str>(
                "Hardware attestation not available",
            ) && final(self).smc_stats == old(self).smc_stats,
            old(self).available && old(self).security_config.hardware_attestation ==> exists|res: SmcResult, lat: u64|
                #[trigger] smc_answers(
                    *smc,
                    smc_call(smc::SIS_TPM_QUOTE, nonce_addr, computation_hash_addr, quote_addr, quote_len as u64, 0),
                    res,
                    lat,
                ) && r == attestation_outcome(res, quote_len) && final(self).smc_stats == stats_after_call(old(self).smc_stats, lat, res.ret0),
    {
        if !self.available || !self.security_config.hardware_attestation {
            return Err("Hardware attestation not available");
        }
        let call = SmcCall {
            function_id: smc::SIS_TPM_QUOTE,
            arg0: nonce_addr,
            arg1: computation_hash_addr,
            arg2: quote_addr,
            arg3: quote_len as u64,
            arg4: 0,
            arg5: 0,
            arg6: 0,
        };
        let ghost pre_stats = self.smc_stats;
        let result = self.call_smc(call, smc);
        proof {
            let lat = choose|lat: u64|
                smc_answers(*smc, call, result, lat) && self.smc_stats == stats_after_call(pre_stats, lat, result.ret0);
            assert(call == smc_call(smc::SIS_TPM_QUOTE, nonce_addr, computation_hash_addr, quote_addr, quote_len as u64, 0));
            assert(smc_answers(*smc, smc_call(smc::SIS_TPM_QUOTE, nonce_addr, computation_hash_addr, quote_addr, quote_len as u64, 0), result, lat));
        }
        if result.ret0 == smc::SUCCESS {
            if result.ret1 < quote_len as u64 {
                Ok(result.ret1 as usize)
            } else {
                Ok(quote_len)
            }
        } else if result.ret0 == smc::INVALID_PARAMS {
            Err("Invalid attestation parameters")
        } else if result.ret0 == smc::NO_MEMORY {
            Err("Attestation buffer too small")
        } else {
            Err("Hardware attestation failed")
        }
    }

    /// SMC statistics.
    pub fn get_statistics(&self) -> (r: &SmcStatistics)
        ensures
            *r == self.smc_stats,
    {
        &self.smc_stats
    }
}

/// Probes TrustZone in `tz`; see `TrustZone::init`.
pub fn init<F: Fn(SmcCall) -> (SmcResult, u64)>(tz: &mut TrustZone, currentel: u64, id_aa64pfr0: u64, smc: &F) -> (r: Result<
    (),
    &'static str,
>)
    requires
        forall|c: SmcCall| smc.requires((c,)),
    ensures
        el_of(currentel) != 1 ==> r == Err::<(), &'static str>("TrustZone requires EL1"),
        el_of(currentel) == 1 && el3_missing(id_aa64pfr0) ==> r == Err::<(), &'static str>(
            "EL3 not implemented - TrustZone unavailable",
        ),
        el_of(currentel) == 1 && !el3_missing(id_aa64pfr0) ==> r == Ok::<(), &'static str>(()),
{
    tz.init(currentel, id_aa64pfr0, smc)
}

/// Verifies a model through `tz`; see `TrustZone::verify_ai_model`.
pub fn verify_ai_model<F: Fn(SmcCall) -> (SmcResult, u64)>(tz: &mut TrustZone, model_hash_addr: u64, model_size: usize, smc: &F) -> (r: Result<
    bool,
    &'static str,
>)
    requires
        forall|c: SmcCall| smc.requires((c,)),
    ensures
        !(old(tz).available && old(tz).security_config.ai_model_verification) ==> r == Err::<bool, &'static str>(
            "AI verification not available",
        ),
        old(tz).available && old(tz).security_config.ai_model_verification ==> exists|res: SmcResult, lat: u64|
            #[trigger] smc_answers(*smc, smc_call(smc::SIS_AI_VERIFY, model_hash_addr, model_size as u64, 0, 0, 0), res, lat) && r
                == verify_outcome(res),
{
    tz.verify_ai_model(model_hash_addr, model_size, smc)
}

/// Derives a key through `tz`; see `TrustZone::derive_ai_key`.
pub fn derive_ai_key<F: Fn(SmcCall) -> (SmcResult, u64)>(
    tz: &mut TrustZone,
    context_addr: u64,
    context_len: usize,
    key_addr: u64,
    key_id: u32,
    smc: &F,
) -> (r: Result<(), &'static str>)
    requires
        forall|c: SmcCall| smc.requires((c,)),
    ensures
        !(old(tz).available && old(tz).security_config.secure_key_storage) ==> r == Err::<(), &'static str>(
            "Key derivation not available",
        ),
        old(tz).available && old(tz).security_config.secure_key_storage ==> exists|res: SmcResult, lat: u64|
            #[trigger] smc_answers(
                *smc,
                smc_call(smc::SIS_KEY_DERIVE, key_id as u64, context_addr, context_len as u64, key_addr, 32),
                res,
                lat,
            ) && r == derive_outcome(res),
{
    tz.derive_ai_key(context_addr, context_len, key_addr, key_id, smc)
}

/// Fills a buffer with secure random bytes through `tz`; see
/// `TrustZone::get_secure_random`.
pub fn get_secure_random<F: Fn(SmcCall) -> (SmcResult, u64)>(tz: &mut TrustZone, buffer_addr: u64, buffer_len: usize, smc: &F) -> (r:
    Result<(), &'static str>)
    requires
        forall|c: SmcCall| smc.requires((c,)),
    ensures
        !old(tz).available ==> r == Err::<(), &'static str>("Secure random not available"),
        old(tz).available ==> exists|res: SmcResult, lat: u64|
            #[trigger] smc_answers(*smc, smc_call(smc::SIS_SECURE_RAND, buffer_addr, buffer_len as u64, 0, 0, 0), res, lat) && r
                == random_outcome(res),
{
    tz.get_secure_random(buffer_addr, buffer_len, smc)
}

/// Obtains an attestation quote through `tz`; see
/// `TrustZone::get_ai_attestation`.
pub fn get_ai_attestation<F: Fn(SmcCall) -> (SmcResult, u64)>(
    tz: &mut TrustZone,
    nonce_addr: u64,
    computation_hash_addr: u64,
    quote_addr: u64,
    quote_len: usize,
    smc: &F,
) -> (r: Result<usize, &'static str>)
    requires
        forall|c: SmcCall| smc.requires((c,)),
    ensures
        !(old(tz).available && old(tz).security_config.hardware_attestation) ==> r == Err::<usize, &'static str>(
            "Hardware attestation not available",
        ),
        old(tz).available && old(tz).security_config.hardware_attestation ==> exists|res: SmcResult, lat: u64|
            #[trigger] smc_answers(
                *smc,
                smc_call(smc::SIS_TPM_QUOTE, nonce_addr, computation_hash_addr, quote_addr, quote_len as u64, 0),
                res,
                lat,
            ) && r == attestation_outcome(res, quote_len),
{
    tz.get_ai_attestation(nonce_addr, computation_hash_addr, quote_addr, quote_len, smc)
}

/// A copy of the statistics of `tz`.
pub fn get_statistics(tz: &TrustZone) -> (r: SmcStatistics)
    ensures
        r == tz.smc_stats,
{
    tz.smc_stats
}

} // verus!
