use sis_kernel::kernel::ai::fault_injection::{
    CircuitBreaker, CircuitBreakerState, FaultCampaign, FaultConfig, FaultError, FaultId, FaultInjector, FaultScenario,
    FaultType, InjectionPoint, RecoveryObservation, RecoveryStrategy, RecoveryValidator, StateValidation,
};

fn validation(ok: bool, now: u64) -> StateValidation {
    StateValidation { is_consistent: ok, is_responsive: ok, has_resources: true, inference_works: ok, validation_timestamp: now }
}

fn obs(now: u64, ok: bool) -> RecoveryObservation {
    RecoveryObservation { now, recovery_ok: ok, validation: validation(ok, now), latency_cycles: 5_000 }
}

#[test]
fn breaker_opens_after_threshold() {
    let mut b = CircuitBreaker::new();
    assert_eq!(b.state(), CircuitBreakerState::Closed);
    for t in 0..4 {
        b.record_failure(t);
        assert_eq!(b.state(), CircuitBreakerState::Closed);
        assert!(!b.is_open(t));
    }
    b.record_failure(100);
    assert_eq!(b.state(), CircuitBreakerState::Open);
    assert!(b.is_open(100));
    // Still open up to the 30 s timeout (in cycles: 30_000_000 * 1000).
    assert!(b.is_open(100 + 30_000_000_000));
    assert!(!b.is_open(101 + 30_000_000_000));
    assert_eq!(b.state(), CircuitBreakerState::HalfOpen);
    b.record_success();
    assert_eq!(b.state(), CircuitBreakerState::Closed);
    // Failures were forgotten: one more failure does not reopen it.
    b.record_failure(200);
    assert_eq!(b.state(), CircuitBreakerState::Closed);
}

#[test]
fn validator_judges_consistency() {
    let mut v = RecoveryValidator::new();
    let good = v.validate_post_recovery_state(true, true, true, 7);
    assert!(good.is_consistent);
    assert_eq!(good.validation_timestamp, 7);
    let bad = v.validate_post_recovery_state(true, false, true, 8);
    assert!(!bad.is_consistent);
    assert!(bad.is_responsive);
}

#[test]
fn inject_then_recover() {
    let mut inj = FaultInjector::new(FaultConfig::default());
    let id = inj.inject_fault(FaultType::DmaCorruption, InjectionPoint::DuringDma, 1000, 10).unwrap();
    assert_eq!(id, FaultId(1));
    let id2 = inj.inject_fault(FaultType::PowerLoss, InjectionPoint::Random, 1000, 11).unwrap();
    assert_eq!(id2, FaultId(2));
    let r = inj.test_recovery(id, RecoveryStrategy::Checkpoint, obs(20, true)).unwrap();
    assert!(r.recovery_successful);
    assert_eq!(r.recovery_latency_us, 5);
    assert!(r.error_details.is_none());
    assert_eq!(r.recovery_strategy, RecoveryStrategy::Checkpoint);
    // A recovered fault leaves the table.
    assert_eq!(inj.test_recovery(id, RecoveryStrategy::Checkpoint, obs(21, true)).unwrap_err(), FaultError::FaultNotFound);
    let r2 = inj.test_recovery(id2, RecoveryStrategy::Graceful, obs(22, false)).unwrap();
    assert!(!r2.recovery_successful);
    assert!(r2.error_details.is_some());
}

#[test]
fn open_breaker_refuses_injection() {
    let mut inj = FaultInjector::new(FaultConfig::default());
    for t in 0..5u64 {
        let id = inj.inject_fault(FaultType::ComputeUnitFailure, InjectionPoint::DuringInference, 10, t).unwrap();
        assert!(!inj.test_recovery(id, RecoveryStrategy::FastFailover, obs(t, false)).unwrap().recovery_successful);
    }
    assert_eq!(
        inj.inject_fault(FaultType::ComputeUnitFailure, InjectionPoint::DuringInference, 10, 6),
        Err(FaultError::CircuitBreakerOpen)
    );
}

#[test]
fn campaign_counts() {
    let mut inj = FaultInjector::new(FaultConfig::default());
    let scenario = |name: &str, fault_type| FaultScenario {
        name: name.to_string(),
        fault_type,
        injection_point: InjectionPoint::DuringInference,
        duration_us: 100,
        recovery_strategy: RecoveryStrategy::Graceful,
    };
    let campaign = FaultCampaign {
        name: "smoke".to_string(),
        scenarios: vec![
            scenario("compute", FaultType::ComputeUnitFailure),
            scenario("thermal", FaultType::ThermalThrottling),
            scenario("timing", FaultType::TimingViolation),
        ],
        inter_scenario_delay_us: 0,
    };
    let observations = vec![obs(1, true), obs(2, false), obs(3, true)];
    let r = inj.run_fault_campaign(campaign, &observations, 12_000);
    assert_eq!(r.campaign_name, "smoke");
    assert_eq!(r.total_scenarios, 3);
    assert_eq!(r.successful_injections, 3);
    assert_eq!(r.successful_recoveries, 2);
    assert_eq!(r.campaign_duration_us, 12);
    assert_eq!(r.scenario_results.len(), 3);
    assert!(r.scenario_results[1].recovery_result.as_ref().map(|x| !x.recovery_successful).unwrap());
}
