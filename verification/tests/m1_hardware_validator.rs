use sis_kernel::arch::aarch64::m1_hardware_validator::{
    check_mmio_address, is_safe_mmio_address, HardwareSafetyMonitor, M1Generation, M1HardwareValidator,
    NeuralEngineDetection, ValidationError,
};

fn apple_midr(part: u64) -> u64 {
    (0x61u64 << 24) | (part << 4)
}

#[test]
fn cpu_generation_from_midr() {
    let m1 = M1HardwareValidator::detect_cpu_generation(apple_midr(0x022));
    assert_eq!(m1.generation, M1Generation::M1);
    assert_eq!(m1.performance_cores, 4);
    assert_eq!(m1.efficiency_cores, 4);
    assert_eq!(m1.cpu_frequency_mhz, 3200);
    assert_eq!(M1HardwareValidator::detect_cpu_generation(apple_midr(0x029)).generation, M1Generation::M1Pro);
    assert_eq!(M1HardwareValidator::detect_cpu_generation(apple_midr(0x02A)).generation, M1Generation::M1Max);
    let ultra = M1HardwareValidator::detect_cpu_generation(apple_midr(0x02D));
    assert_eq!(ultra.generation, M1Generation::M1Ultra);
    assert_eq!(ultra.performance_cores, 16);
    // Not Apple's implementer code.
    let other = M1HardwareValidator::detect_cpu_generation((0x41u64 << 24) | (0x022 << 4));
    assert_eq!(other.generation, M1Generation::Unknown);
    assert_eq!(other.cpu_frequency_mhz, 0);
}

#[test]
fn validation_report_on_m1_without_neural_engine() {
    let mut v = M1HardwareValidator::new();
    let report = v.validate_m1_hardware(apple_midr(0x022), None, false).unwrap();
    assert_eq!(report.cpu_generation.generation, M1Generation::M1);
    assert_eq!(report.memory_config.total_memory_gb, 8);
    assert!(report.neural_engine.is_none());
    assert_eq!(report.thermal_state.cpu_temperature_dc, Some(450));
    assert!(report.validation_errors.is_empty());
    assert!(report.safety_validated);
}

#[test]
fn validation_report_with_neural_engine() {
    let mut v = M1HardwareValidator::new();
    let det = NeuralEngineDetection {
        tops_tenths: 158,
        firmware_version: Some(3),
        mmio_accessible: true,
        initialization_time_us: 1200,
    };
    let report = v.validate_m1_hardware(apple_midr(0x028), Some(det), true).unwrap();
    let ne = report.neural_engine.unwrap();
    assert!(ne.detected);
    assert_eq!(ne.cores, 16);
    assert_eq!(ne.tops_tenths, 158);
    assert_eq!(ne.firmware_version, Some(3));
    assert!(report.safety_validated);
}

#[test]
fn required_neural_engine_missing_is_an_error() {
    let mut v = M1HardwareValidator::new();
    v.validation_config.neural_engine_required = true;
    let report = v.validate_m1_hardware(apple_midr(0x022), None, false).unwrap();
    assert_eq!(report.validation_errors.len(), 1);
    assert!(matches!(report.validation_errors[0], ValidationError::NeuralEngineNotFound));
    // Strict mode: any error withholds safety validation.
    assert!(!report.safety_validated);
    // Outside strict mode, the critical checks decide.
    v.validation_config.strict_mode = false;
    let relaxed = v.validate_m1_hardware(apple_midr(0x022), None, false).unwrap();
    assert!(relaxed.safety_validated);
    let unknown = v.validate_m1_hardware(0, None, false).unwrap();
    assert!(!unknown.safety_validated);
}

#[test]
fn safety_monitor_passes_result_through() {
    let mut m = HardwareSafetyMonitor::new_conservative();
    assert_eq!(m.thermal_limit_dc, 750);
    assert_eq!(m.watchdog_timeout_ms, 100);
    let r = m.monitor_operation(|| 41 + 1);
    assert_eq!(r.unwrap(), 42);
}

#[test]
fn mmio_windows() {
    assert!(is_safe_mmio_address(0x204000000));
    assert!(is_safe_mmio_address(0x20400FFFF));
    assert!(!is_safe_mmio_address(0x204010000));
    assert!(is_safe_mmio_address(0x235000010));
    assert!(is_safe_mmio_address(0x23B003FFF));
    assert!(!is_safe_mmio_address(0));
    assert_eq!(check_mmio_address(0x235000000).unwrap(), 0x235000000);
    match check_mmio_address(0x1000) {
        Err(ValidationError::MMIOAccessFailed(a)) => assert_eq!(a, 0x1000),
        _ => panic!("expected an MMIO error"),
    }
}
