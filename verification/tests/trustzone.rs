use sis_kernel::arch::aarch64::trustzone;
use sis_kernel::arch::aarch64::trustzone::smc;
use sis_kernel::arch::aarch64::trustzone::{get_current_el, SmcCall, SmcResult, TrustZone};

fn reply(ret0: i64, ret1: u64) -> SmcResult {
    SmcResult { ret0, ret1, ret2: 0, ret3: 0 }
}

/// A secure monitor that answers every call with success, verifies models
/// whose size is even and quotes 64 bytes; each call takes 100 cycles.
fn monitor(call: SmcCall) -> (SmcResult, u64) {
    let r = match call.function_id {
        smc::CALL_COUNT => reply(smc::SUCCESS, 6),
        smc::SIS_AI_VERIFY => {
            if call.arg1 == 0 {
                reply(smc::INVALID_PARAMS, 0)
            } else {
                reply(smc::SUCCESS, if call.arg1 % 2 == 0 { 1 } else { 0 })
            }
        }
        smc::SIS_KEY_DERIVE => {
            if call.arg4 == 32 {
                reply(smc::SUCCESS, 0)
            } else {
                reply(smc::INVALID_PARAMS, 0)
            }
        }
        smc::SIS_SECURE_RAND => reply(smc::SUCCESS, 0),
        smc::SIS_TPM_QUOTE => {
            if call.arg3 < 64 {
                reply(smc::NO_MEMORY, 0)
            } else {
                reply(smc::SUCCESS, 64)
            }
        }
        _ => reply(smc::NOT_SUPPORTED, 0),
    };
    (r, 100)
}

fn at_el1() -> u64 {
    1 << 2
}

#[test]
fn current_el_field() {
    assert_eq!(get_current_el(0b0100), 1);
    assert_eq!(get_current_el(0b1000), 2);
    assert_eq!(get_current_el(0b1100), 3);
}

#[test]
fn init_requires_el1_and_el3() {
    let mut tz = TrustZone::new();
    assert_eq!(tz.init(2 << 2, 0, &monitor), Err("TrustZone requires EL1"));
    assert_eq!(tz.init(at_el1(), 0xF << 12, &monitor), Err("EL3 not implemented - TrustZone unavailable"));
    assert!(!tz.available);
    assert_eq!(tz.get_statistics().total_calls, 0);
    assert_eq!(trustzone::init(&mut tz, at_el1(), 0x1 << 12, &monitor), Ok(()));
    assert!(tz.available);
    assert_eq!(tz.get_statistics().total_calls, 1);
    assert_eq!(tz.get_statistics().avg_latency_cycles, 50);
}

#[test]
fn services_unavailable_before_init() {
    let mut tz = TrustZone::new();
    assert_eq!(tz.verify_ai_model(0x1000, 4, &monitor), Err("AI verification not available"));
    assert_eq!(tz.derive_ai_key(0x2000, 8, 0x3000, 1, &monitor), Err("Key derivation not available"));
    assert_eq!(tz.get_secure_random(0x4000, 16, &monitor), Err("Secure random not available"));
    assert_eq!(tz.get_ai_attestation(0x5000, 0x6000, 0x7000, 128, &monitor), Err("Hardware attestation not available"));
    assert_eq!(tz.get_statistics().total_calls, 0);
}

#[test]
fn verify_and_derive_decode_replies() {
    let mut tz = TrustZone::new();
    tz.init(at_el1(), 0, &monitor).unwrap();
    assert_eq!(tz.verify_ai_model(0x1000, 4, &monitor), Ok(true));
    assert_eq!(tz.verify_ai_model(0x1000, 5, &monitor), Ok(false));
    assert_eq!(tz.verify_ai_model(0x1000, 0, &monitor), Err("Invalid model parameters"));
    assert_eq!(trustzone::derive_ai_key(&mut tz, 0x2000, 8, 0x3000, 7, &monitor), Ok(()));
    let stats = trustzone::get_statistics(&tz);
    assert_eq!(stats.total_calls, 5);
    assert_eq!(stats.ai_verify_calls, 3);
    assert_eq!(stats.key_derive_calls, 1);
    assert_eq!(stats.failed_calls, 1);
}

#[test]
fn random_and_attestation() {
    let mut tz = TrustZone::new();
    tz.init(at_el1(), 0, &monitor).unwrap();
    assert_eq!(tz.get_secure_random(0x4000, 16, &monitor), Ok(()));
    assert_eq!(tz.get_ai_attestation(0x5000, 0x6000, 0x7000, 128, &monitor), Ok(64));
    assert_eq!(
        trustzone::get_ai_attestation(&mut tz, 0x5000, 0x6000, 0x7000, 16, &monitor),
        Err("Attestation buffer too small")
    );
    tz.security_config.hardware_attestation = false;
    assert_eq!(tz.get_ai_attestation(0x5000, 0x6000, 0x7000, 128, &monitor), Err("Hardware attestation not available"));
}

#[test]
fn call_smc_records_statistics() {
    let mut tz = TrustZone::new();
    let call = SmcCall { function_id: 0xDEAD, arg0: 0, arg1: 0, arg2: 0, arg3: 0, arg4: 0, arg5: 0, arg6: 0 };
    let r = tz.call_smc(call, &monitor);
    assert_eq!(r.ret0, smc::NOT_SUPPORTED);
    assert_eq!(tz.smc_stats.total_calls, 1);
    assert_eq!(tz.smc_stats.failed_calls, 1);
    assert_eq!(tz.smc_stats.avg_latency_cycles, 50);
    tz.call_smc(call, &monitor);
    assert_eq!(tz.smc_stats.avg_latency_cycles, 75);
}

#[test]
fn attestation_quote_is_bounded_by_buffer() {
    let mut tz = TrustZone::new();
    tz.init(at_el1(), 0, &monitor).unwrap();
    // A secure world that reports a quote longer than the buffer given.
    let boastful = |call: SmcCall| -> (SmcResult, u64) {
        if call.function_id == smc::SIS_TPM_QUOTE {
            (reply(smc::SUCCESS, 4096), 100)
        } else {
            monitor(call)
        }
    };
    assert_eq!(tz.get_ai_attestation(0x5000, 0x6000, 0x7000, 1024, &boastful), Ok(1024));
}
