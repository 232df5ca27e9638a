//! Boot error recovery: the strategy for a failure at a boot stage, its
//! execution on the recovery flags, and the diagnostic report.

use vstd::prelude::*;

verus! {

/// Boot stages, in order.
#[allow(non_camel_case_types)]
#[derive(Clone, Copy, Debug, PartialEq, Eq, Structural)]
pub enum BootStage {
    S00_Reset,
    S05_SerialEarly,
    S10_ArchEarly,
    S15_MemoryInit,
    S20_HwDetect,
    S25_NeuralProbe,
    S30_CapabilityInit,
    S35_KernelInit,
    S40_SchedulerInit,
    S45_NeuralOnline,
    S50_BootComplete,
}

/// Boot failure codes.
#[derive(Clone, Copy, Debug, PartialEq, Eq, Structural)]
pub enum BootCode {
    SerialInitFailed,
    MemoryInitFailed,
    NeuralEngineTimeout,
    NeuralEngineNotFound,
    SchedulerInitFailed,
    UnrecoverableError,
    RecoveryFailed,
    /// Any other failure, by its raw code.
    Other(u16),
}

/// Boot error recovery strategies.
#[derive(Clone, Copy, Debug, PartialEq, Eq, Structural)]
pub enum RecoveryStrategy {
    /// Retry the operation.
    Retry,
    /// Skip and continue.
    Skip,
    /// Use a fallback mechanism.
    Fallback,
    /// Continue without the Neural Engine.
    CpuOnly,
    /// Boot in safe mode.
    SafeMode,
    /// Cannot recover.
    Abort,
}

/// Boot diagnostic information.
#[derive(Debug)]
pub struct BootDiagnostic {
    pub stage: BootStage,
    pub error_code: BootCode,
    pub recovery_strategy: RecoveryStrategy,
    pub details: String,
}

/// The strategy for a failure `code` at `stage`: the Neural Engine may be
/// given up (probe timeout or absence, or any failure bringing it online),
/// memory failures are fatal, hardware detection is retried, capability
/// setup falls back to defaults, a scheduler failure boots in safe mode,
/// early serial failures are skipped, and anything else aborts.
pub open spec fn recovery_for(stage: BootStage, code: BootCode) -> RecoveryStrategy {
    match stage {
        BootStage::S25_NeuralProbe => if code == BootCode::NeuralEngineTimeout || code == BootCode::NeuralEngineNotFound {
            RecoveryStrategy::CpuOnly
        } else {
            RecoveryStrategy::Abort
        },
        BootStage::S45_NeuralOnline => RecoveryStrategy::CpuOnly,
        BootStage::S15_MemoryInit => RecoveryStrategy::Abort,
        BootStage::S20_HwDetect => RecoveryStrategy::Retry,
        BootStage::S30_CapabilityInit => RecoveryStrategy::Fallback,
        BootStage::S40_SchedulerInit => RecoveryStrategy::SafeMode,
        BootStage::S05_SerialEarly => RecoveryStrategy::Skip,
        _ => RecoveryStrategy::Abort,
    }
}

/// Determines the recovery strategy for a failure.
pub fn determine_recovery_strategy(stage: BootStage, code: BootCode) -> (r: RecoveryStrategy)
    ensures
        r == recovery_for(stage, code),
{
    match stage {
        BootStage::S25_NeuralProbe => {
            if code == BootCode::NeuralEngineTimeout || code == BootCode::NeuralEngineNotFound {
                RecoveryStrategy::CpuOnly
            } else {
                RecoveryStrategy::Abort
            }
        },
        BootStage::S45_NeuralOnline => RecoveryStrategy::CpuOnly,
        BootStage::S15_MemoryInit => RecoveryStrategy::Abort,
        BootStage::S20_HwDetect => RecoveryStrategy::Retry,
        BootStage::S30_CapabilityInit => RecoveryStrategy::Fallback,
        BootStage::S40_SchedulerInit => RecoveryStrategy::SafeMode,
        BootStage::S05_SerialEarly => RecoveryStrategy::Skip,
        _ => RecoveryStrategy::Abort,
    }
}

/// Recovery flags set while booting.
#[derive(Clone, Copy, Debug, PartialEq, Eq, Structural)]
pub struct RecoveryState {
    pub cpu_only_mode: bool,
    pub safe_mode: bool,
}

impl RecoveryState {
    /// Neither flag set.
    pub fn new() -> (r: Self)
        ensures
            !r.cpu_only_mode && !r.safe_mode,
    {
        RecoveryState { cpu_only_mode: false, safe_mode: false }
    }

    /// Whether the Neural Engine was given up.
    pub fn is_cpu_only_mode(&self) -> (r: bool)
        ensures
            r == self.cpu_only_mode,
    {
        self.cpu_only_mode
    }

    /// Whether the kernel boots in safe mode.
    pub fn is_safe_mode(&self) -> (r: bool)
        ensures
            r == self.safe_mode,
    {
        self.safe_mode
    }
}

/// Carries out `strategy` for `stage`: retrying and skipping succeed, a
/// fallback exists only for capability setup, CPU-only and safe mode set
/// their flag, and abort fails as unrecoverable.
pub fn execute_recovery(state: &mut RecoveryState, strategy: RecoveryStrategy, stage: BootStage) -> (r: Result<
    (),
    BootCode,
>)
    ensures
        strategy == RecoveryStrategy::Retry || strategy == RecoveryStrategy::Skip ==> r is Ok && *final(state) == *old(
            state,
        ),
        strategy == RecoveryStrategy::Fallback ==> *final(state) == *old(state) && (if stage
            == BootStage::S30_CapabilityInit {
            r is Ok
        } else {
            r == Err::<(), BootCode>(BootCode::RecoveryFailed)
        }),
        strategy == RecoveryStrategy::CpuOnly ==> r is Ok && *final(state) == (RecoveryState {
            cpu_only_mode: true,
            ..*old(state)
        }),
        strategy == RecoveryStrategy::SafeMode ==> r is Ok && *final(state) == (RecoveryState {
            safe_mode: true,
            ..*old(state)
        }),
        strategy == RecoveryStrategy::Abort ==> r == Err::<(), BootCode>(BootCode::UnrecoverableError) && *final(state)
            == *old(state),
{
    match strategy {
        RecoveryStrategy::Retry => Ok(()),
        RecoveryStrategy::Skip => Ok(()),
        RecoveryStrategy::Fallback => apply_fallback(stage),
        RecoveryStrategy::CpuOnly => {
            state.cpu_only_mode = true;
            Ok(())
        },
        RecoveryStrategy::SafeMode => {
            state.safe_mode = true;
            Ok(())
        },
        RecoveryStrategy::Abort => Err(BootCode::UnrecoverableError),
    }
}

/// The fallback of `stage`: default capabilities for capability setup,
/// none elsewhere.
fn apply_fallback(stage: BootStage) -> (r: Result<(), BootCode>)
    ensures
        stage == BootStage::S30_CapabilityInit ==> r is Ok,
        stage != BootStage::S30_CapabilityInit ==> r == Err::<(), BootCode>(BootCode::RecoveryFailed),
{
    match stage {
        BootStage::S30_CapabilityInit => Ok(()),
        _ => Err(BootCode::RecoveryFailed),
    }
}

/// The explanation of a failure code.
pub open spec fn details_of(code: BootCode) -> &'static str {
    match code {
        BootCode::SerialInitFailed => "UART initialization failed",
        BootCode::MemoryInitFailed => "Memory subsystem initialization failed",
        BootCode::NeuralEngineTimeout => "Neural Engine probe timeout",
        BootCode::NeuralEngineNotFound => "Neural Engine not detected",
        BootCode::SchedulerInitFailed => "Scheduler initialization failed",
        BootCode::UnrecoverableError => "Unrecoverable system error",
        BootCode::RecoveryFailed => "Recovery attempt failed",
        BootCode::Other(_) => "Unknown error",
    }
}

/// The diagnostic report of a failure: stage, code, strategy and the
/// explanation of the code.
pub fn generate_diagnostic_report(stage: BootStage, code: BootCode) -> (r: BootDiagnostic)
    ensures
        r.stage == stage,
        r.error_code == code,
        r.recovery_strategy == recovery_for(stage, code),
        r.details@ == details_of(code)@,
{
    let details: &'static str = match code {
        BootCode::SerialInitFailed => "UART initialization failed",
        BootCode::MemoryInitFailed => "Memory subsystem initialization failed",
        BootCode::NeuralEngineTimeout => "Neural Engine probe timeout",
        BootCode::NeuralEngineNotFound => "Neural Engine not detected",
        BootCode::SchedulerInitFailed => "Scheduler initialization failed",
        BootCode::UnrecoverableError => "Unrecoverable system error",
        BootCode::RecoveryFailed => "Recovery attempt failed",
        BootCode::Other(_) => "Unknown error",
    };
    BootDiagnostic {
        stage,
        error_code: code,
        recovery_strategy: determine_recovery_strategy(stage, code),
        details: details.to_owned(),
    }
}

/// Log name of a strategy.
pub fn recovery_strategy_name(strategy: RecoveryStrategy) -> (r: &'static str)
    ensures
        r == (match strategy {
            RecoveryStrategy::Retry => "Retry",
            RecoveryStrategy::Skip => "Skip",
            RecoveryStrategy::Fallback => "Fallback",
            RecoveryStrategy::CpuOnly => "CPU-Only",
            RecoveryStrategy::SafeMode => "Safe-Mode",
            RecoveryStrategy::Abort => "Abort",
        }),
{
    match strategy {
        RecoveryStrategy::Retry => "Retry",
        RecoveryStrategy::Skip => "Skip",
        RecoveryStrategy::Fallback => "Fallback",
        RecoveryStrategy::CpuOnly => "CPU-Only",
        RecoveryStrategy::SafeMode => "Safe-Mode",
        RecoveryStrategy::Abort => "Abort",
    }
}

/// Log name of a stage.
pub fn stage_name(stage: BootStage) -> (r: &'static str)
    ensures
        r == (match stage {
            BootStage::S00_Reset => "S00_Reset",
            BootStage::S05_SerialEarly => "S05_SerialEarly",
            BootStage::S10_ArchEarly => "S10_ArchEarly",
            BootStage::S15_MemoryInit => "S15_MemoryInit",
            BootStage::S20_HwDetect => "S20_HwDetect",
            BootStage::S25_NeuralProbe => "S25_NeuralProbe",
            BootStage::S30_CapabilityInit => "S30_CapabilityInit",
            BootStage::S35_KernelInit => "S35_KernelInit",
            BootStage::S40_SchedulerInit => "S40_SchedulerInit",
            BootStage::S45_NeuralOnline => "S45_NeuralOnline",
            BootStage::S50_BootComplete => "S50_BootComplete",
        }),
{
    match stage {
        BootStage::S00_Reset => "S00_Reset",
        BootStage::S05_SerialEarly => "S05_SerialEarly",
        BootStage::S10_ArchEarly => "S10_ArchEarly",
        BootStage::S15_MemoryInit => "S15_MemoryInit",
        BootStage::S20_HwDetect => "S20_HwDetect",
        BootStage::S25_NeuralProbe => "S25_NeuralProbe",
        BootStage::S30_CapabilityInit => "S30_CapabilityInit",
        BootStage::S35_KernelInit => "S35_KernelInit",
        BootStage::S40_SchedulerInit => "S40_SchedulerInit",
        BootStage::S45_NeuralOnline => "S45_NeuralOnline",
        BootStage::S50_BootComplete => "S50_BootComplete",
    }
}

/// The four upper-case hexadecimal digits of `val`, most significant first.
pub fn hex_digits(val: u16) -> (r: [u8; 4])
    ensures
        forall|i: int|
            0 <= i < 4 ==> {
                let d = (val as int / pow16(3 - i)) % 16;
                #[trigger] r@[i] == (if d < 10 {
                    48 + d
                } else {
                    55 + d
                })
            },
{
    let mut out: [u8; 4] = [0, 0, 0, 0];
    let mut i: usize = 0;
    while i < 4
        invariant
            i <= 4,
            forall|k: int|
                0 <= k < i ==> {
                    let d = (val as int / pow16(3 - k)) % 16;
                    #[trigger] out@[k] == (if d < 10 {
                        48 + d
                    } else {
                        55 + d
                    })
                },
        decreases 4 - i,
    {
        let shift: u16 = (12 - 4 * i) as u16;
        let nibble = (val >> shift) & 0xF;
        proof {
            assert(shift == 12 || shift == 8 || shift == 4 || shift == 0);
            assert((val >> 12u16) & 0xF == (val / 4096) % 16) by (bit_vector);
            assert((val >> 8u16) & 0xF == (val / 256) % 16) by (bit_vector);
            assert((val >> 4u16) & 0xF == (val / 16) % 16) by (bit_vector);
            assert((val >> 0u16) & 0xF == val % 16) by (bit_vector);
        }
        let digit: u8 = if nibble < 10 {
            48 + nibble as u8
        } else {
            55 + nibble as u8
        };
        out[i] = digit;
        i = i + 1;
    }
    out
}

/// `16^k` for the digit positions.
pub open spec fn pow16(k: int) -> int {
    if k == 3 {
        4096
    } else if k == 2 {
        256
    } else if k == 1 {
        16
    } else {
        1
    }
}

/// The decimal digits of `n`, most significant first (`0` for zero).
pub open spec fn decimal_digits(n: nat) -> Seq<u8>
    decreases n,
{
    if n < 10 {
        seq![(48 + n) as u8]
    } else {
        decimal_digits(n / 10).push((48 + n % 10) as u8)
    }
}

/// The decimal representation of `n`.
pub fn decimal(n: u32) -> (r: Vec<u8>)
    ensures
        r@ == decimal_digits(n as nat),
    decreases n,
{
    if n < 10 {
        let mut v: Vec<u8> = Vec::new();
        v.push(48 + n as u8);
        proof {
            assert(v@ == seq![(48 + n) as u8]);
        }
        return v;
    }
    let mut v = decimal(n / 10);
    v.push(48 + (n % 10) as u8);
    v
}

} // verus!
