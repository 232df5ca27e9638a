use sis_kernel::kernel::boot_recovery::{
    decimal, determine_recovery_strategy, execute_recovery, generate_diagnostic_report, hex_digits,
    recovery_strategy_name, stage_name, BootCode, BootStage, RecoveryState, RecoveryStrategy,
};

#[test]
fn neural_probe_timeout_falls_back_to_cpu() {
    assert_eq!(
        determine_recovery_strategy(BootStage::S25_NeuralProbe, BootCode::NeuralEngineTimeout),
        RecoveryStrategy::CpuOnly
    );
    assert_eq!(
        determine_recovery_strategy(BootStage::S25_NeuralProbe, BootCode::NeuralEngineNotFound),
        RecoveryStrategy::CpuOnly
    );
    assert_eq!(
        determine_recovery_strategy(BootStage::S25_NeuralProbe, BootCode::MemoryInitFailed),
        RecoveryStrategy::Abort
    );
}

#[test]
fn strategy_table_by_stage() {
    let code = BootCode::Other(0x1234);
    assert_eq!(determine_recovery_strategy(BootStage::S45_NeuralOnline, code), RecoveryStrategy::CpuOnly);
    assert_eq!(determine_recovery_strategy(BootStage::S15_MemoryInit, code), RecoveryStrategy::Abort);
    assert_eq!(determine_recovery_strategy(BootStage::S20_HwDetect, code), RecoveryStrategy::Retry);
    assert_eq!(determine_recovery_strategy(BootStage::S30_CapabilityInit, code), RecoveryStrategy::Fallback);
    assert_eq!(determine_recovery_strategy(BootStage::S40_SchedulerInit, code), RecoveryStrategy::SafeMode);
    assert_eq!(determine_recovery_strategy(BootStage::S05_SerialEarly, code), RecoveryStrategy::Skip);
    assert_eq!(determine_recovery_strategy(BootStage::S00_Reset, code), RecoveryStrategy::Abort);
    assert_eq!(determine_recovery_strategy(BootStage::S50_BootComplete, code), RecoveryStrategy::Abort);
}

#[test]
fn execute_recovery_sets_flags() {
    let mut state = RecoveryState::new();
    assert!(!state.is_cpu_only_mode());
    assert!(!state.is_safe_mode());
    assert_eq!(execute_recovery(&mut state, RecoveryStrategy::CpuOnly, BootStage::S25_NeuralProbe), Ok(()));
    assert!(state.is_cpu_only_mode());
    assert!(!state.is_safe_mode());
    assert_eq!(execute_recovery(&mut state, RecoveryStrategy::SafeMode, BootStage::S40_SchedulerInit), Ok(()));
    assert!(state.is_safe_mode());
}

#[test]
fn execute_recovery_errors() {
    let mut state = RecoveryState::new();
    assert_eq!(
        execute_recovery(&mut state, RecoveryStrategy::Abort, BootStage::S15_MemoryInit),
        Err(BootCode::UnrecoverableError)
    );
    assert_eq!(
        execute_recovery(&mut state, RecoveryStrategy::Fallback, BootStage::S20_HwDetect),
        Err(BootCode::RecoveryFailed)
    );
    assert_eq!(execute_recovery(&mut state, RecoveryStrategy::Fallback, BootStage::S30_CapabilityInit), Ok(()));
    assert_eq!(execute_recovery(&mut state, RecoveryStrategy::Retry, BootStage::S20_HwDetect), Ok(()));
    assert_eq!(execute_recovery(&mut state, RecoveryStrategy::Skip, BootStage::S05_SerialEarly), Ok(()));
    assert_eq!(state, RecoveryState::new());
}

#[test]
fn diagnostic_report_contents() {
    let d = generate_diagnostic_report(BootStage::S25_NeuralProbe, BootCode::NeuralEngineNotFound);
    assert_eq!(d.stage, BootStage::S25_NeuralProbe);
    assert_eq!(d.error_code, BootCode::NeuralEngineNotFound);
    assert_eq!(d.recovery_strategy, RecoveryStrategy::CpuOnly);
    assert_eq!(d.details, "Neural Engine not detected");
    let u = generate_diagnostic_report(BootStage::S00_Reset, BootCode::Other(7));
    assert_eq!(u.details, "Unknown error");
    assert_eq!(u.recovery_strategy, RecoveryStrategy::Abort);
}

#[test]
fn names_of_strategies_and_stages() {
    assert_eq!(recovery_strategy_name(RecoveryStrategy::CpuOnly), "CPU-Only");
    assert_eq!(recovery_strategy_name(RecoveryStrategy::SafeMode), "Safe-Mode");
    assert_eq!(recovery_strategy_name(RecoveryStrategy::Abort), "Abort");
    assert_eq!(stage_name(BootStage::S45_NeuralOnline), "S45_NeuralOnline");
    assert_eq!(stage_name(BootStage::S00_Reset), "S00_Reset");
}

#[test]
fn hex_and_decimal_formatting() {
    assert_eq!(&hex_digits(0xBEEF), b"BEEF");
    assert_eq!(&hex_digits(0x0042), b"0042");
    assert_eq!(decimal(0), b"0".to_vec());
    assert_eq!(decimal(4096), b"4096".to_vec());
    assert_eq!(decimal(u32::MAX), b"4294967295".to_vec());
}
