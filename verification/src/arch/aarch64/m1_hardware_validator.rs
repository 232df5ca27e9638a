//! Apple M1 hardware validation: CPU generation from `MIDR_EL1`, the
//! standard memory layout, Neural Engine acceptance and the thermal check,
//! combined into one validation report.
//!
//! Register reads and the device-tree probe of the Neural Engine happen in
//! the platform layer, which hands their results to the functions here.
//! Temperatures are kept in tenths of a degree Celsius, throughput in tenths
//! of a TOPS and memory bandwidth in MB/s.

use vstd::prelude::*;

verus! {

/// M1 generation detection.
#[derive(Clone, Copy, Debug, PartialEq, Eq, Structural)]
pub enum M1Generation {
    M1,
    M1Pro,
    M1Max,
    M1Ultra,
    Unknown,
}

/// Cache coherency domain.
#[derive(Clone, Copy, Debug, PartialEq, Eq, Structural)]
pub enum CacheDomain {
    CPUOnly,
    SystemCoherent,
    DeviceCoherent,
}

/// M1 cache information.
#[derive(Clone, Copy, Debug, PartialEq, Eq, Structural)]
pub struct M1CacheInfo {
    pub l1_instruction_kb: u32,
    pub l1_data_kb: u32,
    pub l2_shared_mb: u32,
    pub coherency_domain: CacheDomain,
}

/// M1 CPU information.
#[derive(Clone, Copy, Debug, PartialEq, Eq, Structural)]
pub struct M1CpuInfo {
    pub generation: M1Generation,
    pub performance_cores: u8,
    pub efficiency_cores: u8,
    pub cpu_frequency_mhz: u32,
    pub cache_info: M1CacheInfo,
}

/// Memory type.
#[derive(Clone, Copy, Debug, PartialEq, Eq, Structural)]
pub enum MemoryType {
    LPDDR4X,
    LPDDR5,
    Unknown,
}

/// Memory region descriptor.
#[derive(Clone, Copy, Debug, PartialEq, Eq, Structural)]
pub struct MemoryRegion {
    pub base_addr: u64,
    pub size_bytes: u64,
    pub accessible: bool,
    pub cacheable: bool,
}

/// M1 memory layout information.
#[derive(Clone, Copy, Debug, PartialEq, Eq, Structural)]
pub struct M1MemoryLayout {
    pub kernel_region: MemoryRegion,
    pub user_region: MemoryRegion,
    pub device_region: MemoryRegion,
    pub neural_region: MemoryRegion,
}

/// M1 memory configuration; the bandwidth is in MB/s.
#[derive(Clone, Copy, Debug, PartialEq, Eq, Structural)]
pub struct M1MemoryInfo {
    pub total_memory_gb: u8,
    pub memory_type: MemoryType,
    pub bandwidth_mbps: u32,
    pub unified_memory: bool,
    pub memory_layout: M1MemoryLayout,
}

/// M1 Neural Engine information; the rating is in tenths of a TOPS.
#[derive(Clone, Copy, Debug, PartialEq, Eq, Structural)]
pub struct M1NeuralEngineInfo {
    pub detected: bool,
    pub cores: u8,
    pub tops_tenths: u32,
    pub firmware_version: Option<u32>,
    pub mmio_accessible: bool,
    pub initialization_time_us: u32,
}

/// Thermal pressure levels.
#[derive(Clone, Copy, Debug, PartialEq, Eq, Structural)]
pub enum ThermalPressure {
    Nominal,
    Light,
    Moderate,
    Heavy,
    Critical,
}

/// M1 thermal state; temperatures are in tenths of a degree Celsius.
#[derive(Clone, Copy, Debug, PartialEq, Eq, Structural)]
pub struct M1ThermalState {
    pub cpu_temperature_dc: Option<i32>,
    pub gpu_temperature_dc: Option<i32>,
    pub thermal_pressure: ThermalPressure,
    pub cooling_available: bool,
}

/// Validation error types; a temperature is in tenths of a degree Celsius.
#[derive(Clone, Debug)]
pub enum ValidationError {
    UnsupportedHardware(String),
    MemoryConfigMismatch,
    ThermalLimitExceeded(i32),
    NeuralEngineNotFound,
    MMIOAccessFailed(u64),
    SecurityViolation(String),
    PerformanceTargetMissed,
}

/// What the platform's device-tree probe reports of the Neural Engine.
#[derive(Clone, Copy, Debug, PartialEq, Eq, Structural)]
pub struct NeuralEngineDetection {
    pub tops_tenths: u32,
    pub firmware_version: Option<u32>,
    pub mmio_accessible: bool,
    pub initialization_time_us: u32,
}

/// M1 hardware validation results.
#[derive(Debug)]
pub struct M1ValidationReport {
    pub cpu_generation: M1CpuInfo,
    pub memory_config: M1MemoryInfo,
    pub neural_engine: Option<M1NeuralEngineInfo>,
    pub thermal_state: M1ThermalState,
    pub safety_validated: bool,
    pub validation_errors: heapless::Vec<ValidationError, 16>,
}

/// The fixed-capacity vector of the `heapless` crate.
#[verifier::external_type_specification]
#[verifier::external_body]
#[verifier::reject_recursive_types(T)]
pub struct ExHeaplessVec<T, const N: usize>(heapless::Vec<T, N>);

/// The errors a report's error list holds, in the order they were pushed.
pub uninterp spec fn error_list(v: heapless::Vec<ValidationError, 16>) -> Seq<ValidationError>;

/// `heapless::Vec::new`: a vector that holds nothing.
#[verifier::external_body]
fn error_list_new() -> (r: heapless::Vec<ValidationError, 16>)
    ensures
        error_list(r) == Seq::<ValidationError>::empty(),
{
    heapless::Vec::new()
}

/// `heapless::Vec::push`: below the capacity of 16 the item is appended;
/// at the capacity it is handed back and the vector stays as it was.
#[verifier::external_body]
fn error_list_push(v: &mut heapless::Vec<ValidationError, 16>, e: ValidationError) -> (r: Result<(), ValidationError>)
    ensures
        error_list(*old(v)).len() < 16 ==> r is Ok && error_list(*final(v)) == error_list(*old(v)).push(e),
        error_list(*old(v)).len() >= 16 ==> (r matches Err(x) && x == e) && error_list(*final(v)) == error_list(
            *old(v),
        ),
{
    v.push(e)
}

/// `heapless::Vec::is_empty`: whether the vector holds no item.
#[verifier::external_body]
fn error_list_is_empty(v: &heapless::Vec<ValidationError, 16>) -> (r: bool)
    ensures
        r == (error_list(*v).len() == 0),
{
    v.is_empty()
}

/// Hardware safety monitor.
pub struct HardwareSafetyMonitor {
    pub watchdog_timeout_ms: u32,
    pub thermal_limit_dc: i32,
    pub voltage_monitoring: bool,
    pub emergency_shutdown: bool,
}

impl HardwareSafetyMonitor {
    /// The conservative monitor: 100 ms watchdog, 75 °C thermal limit.
    pub fn new_conservative() -> (r: Self)
        ensures
            r.watchdog_timeout_ms == 100,
            r.thermal_limit_dc == 750,
            r.voltage_monitoring,
            !r.emergency_shutdown,
    {
        HardwareSafetyMonitor {
            watchdog_timeout_ms: 100,
            thermal_limit_dc: 750,
            voltage_monitoring: true,
            emergency_shutdown: false,
        }
    }

    /// Runs `operation` between the thermal checks and the watchdog; the
    /// thermal checks pass, so the operation's result comes back.
    pub fn monitor_operation<T, F: FnOnce() -> T>(&mut self, operation: F) -> (r: Result<T, ValidationError>)
        requires
            operation.requires(()),
        ensures
            match r {
                Ok(v) => operation.ensures((), v),
                Err(_) => false,
            },
            *final(self) == *old(self),
    {
        match self.check_thermal_state() {
            Ok(()) => {},
            Err(e) => {
                return Err(e);
            },
        }
        self.arm_watchdog();
        let result = operation();
        self.disarm_watchdog();
        match self.check_thermal_state() {
            Ok(()) => Ok(result),
            Err(e) => Err(e),
        }
    }

    /// The thermal sensors report a normal state.
    fn check_thermal_state(&self) -> (r: Result<(), ValidationError>)
        ensures
            r is Ok,
    {
        Ok(())
    }

    fn arm_watchdog(&self) {
    }

    fn disarm_watchdog(&self) {
    }
}

/// Validation configuration.
#[derive(Clone, Copy, Debug, PartialEq, Eq, Structural)]
pub struct ValidationConfig {
    pub strict_mode: bool,
    pub performance_validation: bool,
    pub thermal_monitoring: bool,
    pub neural_engine_required: bool,
}

impl ValidationConfig {
    /// Strict, with performance and thermal checks; the Neural Engine may be
    /// absent.
    pub fn new_conservative() -> (r: Self)
        ensures
            r == (ValidationConfig {
                strict_mode: true,
                performance_validation: true,
                thermal_monitoring: true,
                neural_engine_required: false,
            }),
    {
        ValidationConfig {
            strict_mode: true,
            performance_validation: true,
            thermal_monitoring: true,
            neural_engine_required: false,
        }
    }
}

/// Implementer field of `MIDR_EL1`.
pub open spec fn midr_implementer(midr: u64) -> u64 {
    (midr >> 24u64) & 0xFF
}

/// Part number field of `MIDR_EL1`.
pub open spec fn midr_part(midr: u64) -> u64 {
    (midr >> 4u64) & 0xFFF
}

/// The M1 generation that `MIDR_EL1` names (Apple's implementer code is 0x61).
pub open spec fn generation_of(midr: u64) -> M1Generation {
    if midr_implementer(midr) == 0x61 {
        let p = midr_part(midr);
        if p == 0x022 || p == 0x023 {
            M1Generation::M1
        } else if p == 0x028 || p == 0x029 {
            M1Generation::M1Pro
        } else if p == 0x02A || p == 0x02B {
            M1Generation::M1Max
        } else if p == 0x02C || p == 0x02D {
            M1Generation::M1Ultra
        } else {
            M1Generation::Unknown
        }
    } else {
        M1Generation::Unknown
    }
}

/// Core counts and frequency of each generation, with the shared cache
/// figures of the M1 family.
pub open spec fn cpu_info_for(g: M1Generation) -> M1CpuInfo {
    let (p, e, f): (u8, u8, u32) = match g {
        M1Generation::M1 => (4, 4, 3200),
        M1Generation::M1Pro => (8, 2, 3200),
        M1Generation::M1Max => (8, 2, 3200),
        M1Generation::M1Ultra => (16, 4, 3200),
        M1Generation::Unknown => (0, 0, 0),
    };
    M1CpuInfo {
        generation: g,
        performance_cores: p,
        efficiency_cores: e,
        cpu_frequency_mhz: f,
        cache_info: M1CacheInfo {
            l1_instruction_kb: 128,
            l1_data_kb: 128,
            l2_shared_mb: 12,
            coherency_domain: CacheDomain::SystemCoherent,
        },
    }
}

/// The standard 8 GB M1 memory configuration.
pub open spec fn standard_memory_info() -> M1MemoryInfo {
    M1MemoryInfo {
        total_memory_gb: 8,
        memory_type: MemoryType::LPDDR4X,
        bandwidth_mbps: 68250,
        unified_memory: true,
        memory_layout: M1MemoryLayout {
            kernel_region: MemoryRegion {
                base_addr: 0x800000000,
                size_bytes: 0x80000000,
                accessible: true,
                cacheable: true,
            },
            user_region: MemoryRegion {
                base_addr: 0x880000000,
                size_bytes: 0x100000000,
                accessible: true,
                cacheable: true,
            },
            device_region: MemoryRegion {
                base_addr: 0x200000000,
                size_bytes: 0x10000000,
                accessible: true,
                cacheable: false,
            },
            neural_region: MemoryRegion {
                base_addr: 0x980000000,
                size_bytes: 0x40000000,
                accessible: true,
                cacheable: true,
            },
        },
    }
}

/// The thermal state the sensors report at idle (45 °C CPU, 42 °C GPU).
pub open spec fn idle_thermal_state() -> M1ThermalState {
    M1ThermalState {
        cpu_temperature_dc: Some(450),
        gpu_temperature_dc: Some(420),
        thermal_pressure: ThermalPressure::Nominal,
        cooling_available: true,
    }
}

/// The placeholder report before any step has run.
pub open spec fn blank_report_fields() -> (M1CpuInfo, M1MemoryInfo, M1ThermalState) {
    let none = MemoryRegion { base_addr: 0, size_bytes: 0, accessible: false, cacheable: false };
    (
        cpu_info_for(M1Generation::Unknown),
        M1MemoryInfo {
            total_memory_gb: 0,
            memory_type: MemoryType::Unknown,
            bandwidth_mbps: 0,
            unified_memory: false,
            memory_layout: M1MemoryLayout {
                kernel_region: none,
                user_region: none,
                device_region: none,
                neural_region: none,
            },
        },
        M1ThermalState {
            cpu_temperature_dc: None,
            gpu_temperature_dc: None,
            thermal_pressure: ThermalPressure::Nominal,
            cooling_available: true,
        },
    )
}

/// What the Neural Engine step yields for a probe result and the outcome
/// of its hardware check: the engine when both succeed, else an error if
/// the engine is required and nothing otherwise.
pub open spec fn neural_step(
    required: bool,
    detection: Option<NeuralEngineDetection>,
    hardware_ok: bool,
) -> Result<Option<M1NeuralEngineInfo>, ()> {
    match detection {
        Some(d) => if hardware_ok {
            Ok(
                Some(
                    M1NeuralEngineInfo {
                        detected: true,
                        cores: 16,
                        tops_tenths: d.tops_tenths,
                        firmware_version: d.firmware_version,
                        mmio_accessible: d.mmio_accessible,
                        initialization_time_us: d.initialization_time_us,
                    },
                ),
            )
        } else if required {
            Err(())
        } else {
            Ok(None)
        },
        None => if required {
            Err(())
        } else {
            Ok(None)
        },
    }
}

/// The critical checks of a report: a known CPU, an accessible kernel
/// region and a CPU temperature of at most 80 °C.
pub open spec fn critical_ok(report: M1ValidationReport) -> bool {
    &&& report.cpu_generation.generation != M1Generation::Unknown
    &&& report.memory_config.memory_layout.kernel_region.accessible
    &&& match report.thermal_state.cpu_temperature_dc {
        Some(t) => t <= 800,
        None => true,
    }
}

/// M1 hardware validator.
pub struct M1HardwareValidator {
    pub safety_monitor: HardwareSafetyMonitor,
    pub validation_config: ValidationConfig,
}

impl M1HardwareValidator {
    /// A validator with the conservative monitor and configuration.
    pub fn new() -> (r: Self)
        ensures
            r.safety_monitor.thermal_limit_dc == 750,
            r.safety_monitor.watchdog_timeout_ms == 100,
            r.validation_config == (ValidationConfig {
                strict_mode: true,
                performance_validation: true,
                thermal_monitoring: true,
                neural_engine_required: false,
            }),
    {
        M1HardwareValidator {
            safety_monitor: HardwareSafetyMonitor::new_conservative(),
            validation_config: ValidationConfig::new_conservative(),
        }
    }

    /// Runs the four validation steps on the value of `MIDR_EL1` and the
    /// Neural Engine probe (`detection`, with `hardware_ok` the outcome of
    /// its hardware check), collecting the errors of failed steps.  The
    /// report is safety-validated when no step failed, or, outside strict
    /// mode, when the critical checks pass.
    pub fn validate_m1_hardware(
        &mut self,
        midr: u64,
        detection: Option<NeuralEngineDetection>,
        hardware_ok: bool,
    ) -> (r: Result<M1ValidationReport, ValidationError>)
        ensures
            final(self).validation_config == old(self).validation_config,
            final(self).safety_monitor.thermal_limit_dc == old(self).safety_monitor.thermal_limit_dc,
            r matches Ok(report) && {
                let cfg = old(self).validation_config;
                let mem_ok = !(cfg.strict_mode && standard_memory_info().total_memory_gb != 8);
                let neural = neural_step(cfg.neural_engine_required, detection, hardware_ok);
                let thermal_ok = old(self).safety_monitor.thermal_limit_dc >= 450;
                &&& report.cpu_generation == cpu_info_for(generation_of(midr))
                &&& report.memory_config == (if mem_ok {
                    standard_memory_info()
                } else {
                    blank_report_fields().1
                })
                &&& report.neural_engine == (match neural {
                    Ok(n) => n,
                    Err(_) => None,
                })
                &&& report.thermal_state == (if thermal_ok {
                    idle_thermal_state()
                } else {
                    blank_report_fields().2
                })
                &&& error_list(report.validation_errors).len() == (if mem_ok { 0int } else { 1int }) + (if neural is Err {
                    1int
                } else {
                    0int
                }) + (if thermal_ok {
                    0int
                } else {
                    1int
                })
                &&& (thermal_ok && neural is Err ==> error_list(report.validation_errors).last() matches ValidationError::NeuralEngineNotFound)
                &&& (!thermal_ok ==> (error_list(report.validation_errors).last() matches ValidationError::ThermalLimitExceeded(t) && t == 450))
                &&& report.safety_validated == (error_list(report.validation_errors).len() == 0 || (!cfg.strict_mode
                    && critical_ok(report)))
            },
    {
        let mut errors = error_list_new();
        let mut cpu_generation = Self::detect_cpu_generation(0);
        let mut memory_config = Self::blank_memory_info();
        let mut neural_engine: Option<M1NeuralEngineInfo> = None;
        let mut thermal_state = M1ThermalState {
            cpu_temperature_dc: None,
            gpu_temperature_dc: None,
            thermal_pressure: ThermalPressure::Nominal,
            cooling_available: true,
        };
        match self.validate_cpu_generation(midr) {
            Ok(info) => {
                cpu_generation = info;
            },
            Err(e) => {
                let _ = error_list_push(&mut errors, e);
            },
        }
        match self.validate_memory_configuration() {
            Ok(info) => {
                memory_config = info;
            },
            Err(e) => {
                let _ = error_list_push(&mut errors, e);
            },
        }
        match self.validate_neural_engine(detection, hardware_ok) {
            Ok(Some(info)) => {
                neural_engine = Some(info);
            },
            Ok(None) => {},
            Err(e) => {
                let _ = error_list_push(&mut errors, e);
            },
        }
        match self.validate_thermal_state() {
            Ok(t) => {
                thermal_state = t;
            },
            Err(e) => {
                let _ = error_list_push(&mut errors, e);
            },
        }
        let mut report = M1ValidationReport {
            cpu_generation,
            memory_config,
            neural_engine,
            thermal_state,
            safety_validated: false,
            validation_errors: errors,
        };
        let safe = error_list_is_empty(&report.validation_errors) || (!self.validation_config.strict_mode
            && self.critical_validations_passed(&report));
        report.safety_validated = safe;
        Ok(report)
    }

    /// The placeholder memory configuration of a report.
    fn blank_memory_info() -> (r: M1MemoryInfo)
        ensures
            r == blank_report_fields().1,
    {
        let none = MemoryRegion { base_addr: 0, size_bytes: 0, accessible: false, cacheable: false };
        M1MemoryInfo {
            total_memory_gb: 0,
            memory_type: MemoryType::Unknown,
            bandwidth_mbps: 0,
            unified_memory: false,
            memory_layout: M1MemoryLayout {
                kernel_region: none,
                user_region: none,
                device_region: none,
                neural_region: none,
            },
        }
    }

    /// CPU step: the generation from `MIDR_EL1`, after the thermal check.
    fn validate_cpu_generation(&mut self, midr: u64) -> (r: Result<M1CpuInfo, ValidationError>)
        ensures
            r == Ok::<M1CpuInfo, ValidationError>(cpu_info_for(generation_of(midr))),
            *final(self) == *old(self),
    {
        let cpu_info = Self::detect_cpu_generation(midr);
        match self.safety_monitor.check_thermal_state() {
            Ok(()) => Ok(cpu_info),
            Err(e) => Err(e),
        }
    }

    /// Decodes `MIDR_EL1` into the generation and its characteristics.
    pub fn detect_cpu_generation(midr: u64) -> (r: M1CpuInfo)
        ensures
            r == cpu_info_for(generation_of(midr)),
    {
        let implementer = (midr >> 24u64) & 0xFF;
        let part_num = (midr >> 4u64) & 0xFFF;
        let generation = if implementer == 0x61 {
            if part_num == 0x022 || part_num == 0x023 {
                M1Generation::M1
            } else if part_num == 0x028 || part_num == 0x029 {
                M1Generation::M1Pro
            } else if part_num == 0x02A || part_num == 0x02B {
                M1Generation::M1Max
            } else if part_num == 0x02C || part_num == 0x02D {
                M1Generation::M1Ultra
            } else {
                M1Generation::Unknown
            }
        } else {
            M1Generation::Unknown
        };
        let (perf_cores, eff_cores, freq_mhz): (u8, u8, u32) = match generation {
            M1Generation::M1 => (4, 4, 3200),
            M1Generation::M1Pro => (8, 2, 3200),
            M1Generation::M1Max => (8, 2, 3200),
            M1Generation::M1Ultra => (16, 4, 3200),
            M1Generation::Unknown => (0, 0, 0),
        };
        M1CpuInfo {
            generation,
            performance_cores: perf_cores,
            efficiency_cores: eff_cores,
            cpu_frequency_mhz: freq_mhz,
            cache_info: M1CacheInfo {
                l1_instruction_kb: 128,
                l1_data_kb: 128,
                l2_shared_mb: 12,
                coherency_domain: CacheDomain::SystemCoherent,
            },
        }
    }

    /// Memory step: in strict mode the configuration must have 8 GB.
    fn validate_memory_configuration(&mut self) -> (r: Result<M1MemoryInfo, ValidationError>)
        ensures
            *final(self) == *old(self),
            (old(self).validation_config.strict_mode && standard_memory_info().total_memory_gb != 8) ==> r matches Err(
                ValidationError::MemoryConfigMismatch,
            ),
            !(old(self).validation_config.strict_mode && standard_memory_info().total_memory_gb != 8) ==> r
                == Ok::<M1MemoryInfo, ValidationError>(standard_memory_info()),
    {
        let memory_info = Self::detect_memory_configuration();
        match self.safety_monitor.check_thermal_state() {
            Ok(()) => {},
            Err(e) => {
                return Err(e);
            },
        }
        if self.validation_config.strict_mode && memory_info.total_memory_gb != 8 {
            return Err(ValidationError::MemoryConfigMismatch);
        }
        Ok(memory_info)
    }

    /// The standard M1 memory configuration.
    pub fn detect_memory_configuration() -> (r: M1MemoryInfo)
        ensures
            r == standard_memory_info(),
    {
        M1MemoryInfo {
            total_memory_gb: 8,
            memory_type: MemoryType::LPDDR4X,
            bandwidth_mbps: 68250,
            unified_memory: true,
            memory_layout: M1MemoryLayout {
                kernel_region: MemoryRegion {
                    base_addr: 0x800000000,
                    size_bytes: 2 * 1024 * 1024 * 1024,
                    accessible: true,
                    cacheable: true,
                },
                user_region: MemoryRegion {
                    base_addr: 0x880000000,
                    size_bytes: 4 * 1024 * 1024 * 1024,
                    accessible: true,
                    cacheable: true,
                },
                device_region: MemoryRegion {
                    base_addr: 0x200000000,
                    size_bytes: 256 * 1024 * 1024,
                    accessible: true,
                    cacheable: false,
                },
                neural_region: MemoryRegion {
                    base_addr: 0x980000000,
                    size_bytes: 1024 * 1024 * 1024,
                    accessible: true,
                    cacheable: true,
                },
            },
        }
    }

    /// Neural Engine step on the probe result and its hardware check, run
    /// under the safety monitor.
    fn validate_neural_engine(&mut self, detection: Option<NeuralEngineDetection>, hardware_ok: bool) -> (r: Result<
        Option<M1NeuralEngineInfo>,
        ValidationError,
    >)
        ensures
            *final(self) == *old(self),
            match neural_step(old(self).validation_config.neural_engine_required, detection, hardware_ok) {
                Ok(n) => r == Ok::<Option<M1NeuralEngineInfo>, ValidationError>(n),
                Err(_) => r matches Err(ValidationError::NeuralEngineNotFound),
            },
    {
        match detection {
            Some(d) => {
                let checked = self.safety_monitor.monitor_operation(|| -> (v: bool) ensures v == hardware_ok { hardware_ok });
                match checked {
                    Ok(true) => Ok(
                        Some(
                            M1NeuralEngineInfo {
                                detected: true,
                                cores: 16,
                                tops_tenths: d.tops_tenths,
                                firmware_version: d.firmware_version,
                                mmio_accessible: d.mmio_accessible,
                                initialization_time_us: d.initialization_time_us,
                            },
                        ),
                    ),
                    Ok(false) => {
                        if self.validation_config.neural_engine_required {
                            Err(ValidationError::NeuralEngineNotFound)
                        } else {
                            Ok(None)
                        }
                    },
                    Err(e) => Err(e),
                }
            },
            None => {
                if self.validation_config.neural_engine_required {
                    Err(ValidationError::NeuralEngineNotFound)
                } else {
                    Ok(None)
                }
            },
        }
    }

    /// Thermal step: a CPU temperature above the monitor's limit fails.
    fn validate_thermal_state(&mut self) -> (r: Result<M1ThermalState, ValidationError>)
        ensures
            *final(self) == *old(self),
            old(self).safety_monitor.thermal_limit_dc >= 450 ==> r == Ok::<M1ThermalState, ValidationError>(
                idle_thermal_state(),
            ),
            old(self).safety_monitor.thermal_limit_dc < 450 ==> (r matches Err(ValidationError::ThermalLimitExceeded(t)) && t
                == 450),
    {
        let thermal_state = Self::measure_thermal_state();
        match thermal_state.cpu_temperature_dc {
            Some(cpu_temp) => {
                if cpu_temp > self.safety_monitor.thermal_limit_dc {
                    return Err(ValidationError::ThermalLimitExceeded(cpu_temp));
                }
            },
            None => {},
        }
        match self.safety_monitor.check_thermal_state() {
            Ok(()) => Ok(thermal_state),
            Err(e) => Err(e),
        }
    }

    /// The sensors' reading at idle.
    pub fn measure_thermal_state() -> (r: M1ThermalState)
        ensures
            r == idle_thermal_state(),
    {
        M1ThermalState {
            cpu_temperature_dc: Some(450),
            gpu_temperature_dc: Some(420),
            thermal_pressure: ThermalPressure::Nominal,
            cooling_available: true,
        }
    }

    /// Whether the critical checks of `report` pass.
    fn critical_validations_passed(&self, report: &M1ValidationReport) -> (r: bool)
        ensures
            r == critical_ok(*report),
    {
        if report.cpu_generation.generation == M1Generation::Unknown {
            return false;
        }
        if !report.memory_config.memory_layout.kernel_region.accessible {
            return false;
        }
        match report.thermal_state.cpu_temperature_dc {
            Some(temp) => {
                if temp > 800 {
                    return false;
                }
            },
            None => {},
        }
        true
    }
}

/// The MMIO windows that validation may touch: Neural Engine, UART, GPIO.
pub open spec fn safe_mmio(addr: u64) -> bool {
    ||| 0x204000000 <= addr < 0x204010000
    ||| 0x235000000 <= addr < 0x235004000
    ||| 0x23B000000 <= addr < 0x23B004000
}

/// Whether `addr` lies in one of the safe MMIO windows.
pub fn is_safe_mmio_address(addr: u64) -> (r: bool)
    ensures
        r == safe_mmio(addr),
{
    let ranges: [(u64, u64); 3] = [
        (0x204000000, 0x204010000),
        (0x235000000, 0x235004000),
        (0x23B000000, 0x23B004000),
    ];
    let mut i: usize = 0;
    while i < 3
        invariant
            i <= 3,
            ranges@ == seq![(0x204000000u64, 0x204010000u64), (0x235000000u64, 0x235004000u64), (0x23B000000u64, 0x23B004000u64)],
            forall|k: int| 0 <= k < i ==> !((#[trigger] ranges@[k]).0 <= addr < ranges@[k].1),
        decreases 3 - i,
    {
        let (start, end) = ranges[i];
        if addr >= start && addr < end {
            return true;
        }
        i = i + 1;
    }
    false
}

/// The check that guards an MMIO access at `addr`: the address itself, or
/// the error naming it.
pub fn check_mmio_address(addr: u64) -> (r: Result<u64, ValidationError>)
    ensures
        safe_mmio(addr) ==> r == Ok::<u64, ValidationError>(addr),
        !safe_mmio(addr) ==> (r matches Err(ValidationError::MMIOAccessFailed(a)) && a == addr),
{
    if is_safe_mmio_address(addr) {
        Ok(addr)
    } else {
        Err(ValidationError::MMIOAccessFailed(addr))
    }
}

} // verus!
