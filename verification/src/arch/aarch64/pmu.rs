//! ARM64 Performance Monitoring Unit: event numbers, what the identification
//! registers say of the PMU, the words that program a counter, and the
//! counter differences of a profiling interval.
//!
//! The platform layer reads and writes the system registers with the
//! values computed here.

use vstd::prelude::*;

verus! {

/// PMU event types for AI workload profiling.
#[derive(Clone, Copy, Debug, PartialEq, Eq, Structural)]
pub enum PmuEvent {
    SwIncrement,
    L1ICacheRefill,
    L1ITlbRefill,
    L1DCacheRefill,
    L1DCacheAccess,
    L1DTlbRefill,
    LoadRetired,
    StoreRetired,
    InstructionRetired,
    Exception,
    ExceptionReturn,
    ContextIdWrite,
    BranchMispredicted,
    CycleCount,
    BranchPredicted,
    DataMemAccess,
    L1ICacheAccess,
    L1DCacheEviction,
    L2DCacheAccess,
    L2DCacheRefill,
    L2DCacheEviction,
    BusAccess,
    LocalMemError,
    InstructionSpeculated,
    TtbwWrite,
    BusCycle,
    ChainEvent,
    L1DCacheAllocate,
    NeonInstruction,
    FpInstruction,
    CryptoInstruction,
    SveInstruction,
}

/// The architectural (or implementation-defined) number of an event.
pub open spec fn event_number(e: PmuEvent) -> u16 {
    match e {
        PmuEvent::SwIncrement => 0x00,
        PmuEvent::L1ICacheRefill => 0x01,
        PmuEvent::L1ITlbRefill => 0x02,
        PmuEvent::L1DCacheRefill => 0x03,
        PmuEvent::L1DCacheAccess => 0x04,
        PmuEvent::L1DTlbRefill => 0x05,
        PmuEvent::LoadRetired => 0x06,
        PmuEvent::StoreRetired => 0x07,
        PmuEvent::InstructionRetired => 0x08,
        PmuEvent::Exception => 0x09,
        PmuEvent::ExceptionReturn => 0x0A,
        PmuEvent::ContextIdWrite => 0x0B,
        PmuEvent::BranchMispredicted => 0x10,
        PmuEvent::CycleCount => 0x11,
        PmuEvent::BranchPredicted => 0x12,
        PmuEvent::DataMemAccess => 0x13,
        PmuEvent::L1ICacheAccess => 0x14,
        PmuEvent::L1DCacheEviction => 0x15,
        PmuEvent::L2DCacheAccess => 0x16,
        PmuEvent::L2DCacheRefill => 0x17,
        PmuEvent::L2DCacheEviction => 0x18,
        PmuEvent::BusAccess => 0x19,
        PmuEvent::LocalMemError => 0x1A,
        PmuEvent::InstructionSpeculated => 0x1B,
        PmuEvent::TtbwWrite => 0x1C,
        PmuEvent::BusCycle => 0x1D,
        PmuEvent::ChainEvent => 0x1E,
        PmuEvent::L1DCacheAllocate => 0x1F,
        PmuEvent::NeonInstruction => 0x64,
        PmuEvent::FpInstruction => 0x65,
        PmuEvent::CryptoInstruction => 0x66,
        PmuEvent::SveInstruction => 0x67,
    }
}

/// The number of `e`.
pub fn event_code(e: PmuEvent) -> (r: u16)
    ensures
        r == event_number(e),
{
    match e {
        PmuEvent::SwIncrement => 0x00,
        PmuEvent::L1ICacheRefill => 0x01,
        PmuEvent::L1ITlbRefill => 0x02,
        PmuEvent::L1DCacheRefill => 0x03,
        PmuEvent::L1DCacheAccess => 0x04,
        PmuEvent::L1DTlbRefill => 0x05,
        PmuEvent::LoadRetired => 0x06,
        PmuEvent::StoreRetired => 0x07,
        PmuEvent::InstructionRetired => 0x08,
        PmuEvent::Exception => 0x09,
        PmuEvent::ExceptionReturn => 0x0A,
        PmuEvent::ContextIdWrite => 0x0B,
        PmuEvent::BranchMispredicted => 0x10,
        PmuEvent::CycleCount => 0x11,
        PmuEvent::BranchPredicted => 0x12,
        PmuEvent::DataMemAccess => 0x13,
        PmuEvent::L1ICacheAccess => 0x14,
        PmuEvent::L1DCacheEviction => 0x15,
        PmuEvent::L2DCacheAccess => 0x16,
        PmuEvent::L2DCacheRefill => 0x17,
        PmuEvent::L2DCacheEviction => 0x18,
        PmuEvent::BusAccess => 0x19,
        PmuEvent::LocalMemError => 0x1A,
        PmuEvent::InstructionSpeculated => 0x1B,
        PmuEvent::TtbwWrite => 0x1C,
        PmuEvent::BusCycle => 0x1D,
        PmuEvent::ChainEvent => 0x1E,
        PmuEvent::L1DCacheAllocate => 0x1F,
        PmuEvent::NeonInstruction => 0x64,
        PmuEvent::FpInstruction => 0x65,
        PmuEvent::CryptoInstruction => 0x66,
        PmuEvent::SveInstruction => 0x67,
    }
}

/// PMU configuration for a performance counter.
#[derive(Clone, Copy, Debug, PartialEq, Eq, Structural)]
pub struct PmuConfig {
    pub event: PmuEvent,
    pub enable_interrupt: bool,
    pub enable_export: bool,
    pub count_kernel: bool,
    pub count_user: bool,
}

impl Default for PmuConfig {
    /// Cycles, counted in kernel and user mode, without interrupt or export.
    fn default() -> (r: Self)
        ensures
            r == (PmuConfig {
                event: PmuEvent::CycleCount,
                enable_interrupt: false,
                enable_export: false,
                count_kernel: true,
                count_user: true,
            }),
    {
        PmuConfig {
            event: PmuEvent::CycleCount,
            enable_interrupt: false,
            enable_export: false,
            count_kernel: true,
            count_user: true,
        }
    }
}

/// PMU counter state.
#[derive(Clone, Copy, Debug)]
pub struct PmuCounter {
    pub config: PmuConfig,
    pub value: u64,
    pub overflow_count: u64,
}

/// The register words that program one event counter: the counter to
/// select, its event type and the bit that enables it.
#[derive(Clone, Copy, Debug, PartialEq, Eq, Structural)]
pub struct CounterProgram {
    pub select: u64,
    pub event_type: u64,
    pub enable_mask: u64,
}

/// ARM64 PMU system.
#[derive(Clone, Copy, Debug, PartialEq, Eq, Structural)]
pub struct Pmu {
    /// Number of event counters (the cycle counter aside).
    pub num_counters: u32,
    /// Counter width in bits.
    pub counter_width: u32,
    pub available: bool,
}

/// PMU version field of `ID_AA64DFR0_EL1`.
pub open spec fn pmu_version(dfr0: u64) -> u64 {
    (dfr0 >> 8u64) & 0xF
}

/// `PMXEVTYPER` for `config`: the event, with the kernel (bit 31) and user
/// (bit 30) exclusion bits for modes that are not counted.
pub open spec fn event_type_word(config: PmuConfig) -> u64 {
    (event_number(config.event) as u64) | (if config.count_kernel {
        0u64
    } else {
        0x8000_0000u64
    }) | (if config.count_user {
        0u64
    } else {
        0x4000_0000u64
    })
}

/// Enable bit of the cycle counter in `PMCNTENSET_EL0`.
pub const CYCLE_COUNTER_ENABLE: u64 = 0x8000_0000;

/// Every counter bit of `PMCNTENCLR_EL0`.
pub const ALL_COUNTERS_MASK: u64 = 0xFFFF_FFFF;

/// `PMUSERENR_EL0` granting user-mode access (EN, SW, CR, ER).
pub const USER_ACCESS_ENABLE: u64 = 0xF;

impl Pmu {
    /// What `ID_AA64DFR0_EL1` (`dfr0`) and `PMCR_EL0` (`pmcr`) say of the
    /// PMU: absent for version 0 or 0xF, else the counter count of
    /// PMCR.N (bits 15:11) and 64-bit counters when PMCR.LC (bit 6) is set.
    pub fn init(dfr0: u64, pmcr: u64) -> (r: Result<Self, &'static str>)
        ensures
            (pmu_version(dfr0) == 0 || pmu_version(dfr0) == 0xF) ==> r == Err::<Pmu, &'static str>("PMU not available"),
            !(pmu_version(dfr0) == 0 || pmu_version(dfr0) == 0xF) ==> r == Ok::<Pmu, &'static str>(
                Pmu {
                    num_counters: ((pmcr >> 11u64) & 0x1F) as u32,
                    counter_width: if pmcr & 0x40 != 0 {
                        64
                    } else {
                        32
                    },
                    available: true,
                },
            ),
    {
        let version = (dfr0 >> 8u64) & 0xF;
        if version == 0 || version == 0xF {
            return Err("PMU not available");
        }
        let num_counters = ((pmcr >> 11u64) & 0x1F) as u32;
        let counter_width: u32 = if pmcr & 0x40 != 0 {
            64
        } else {
            32
        };
        Ok(Pmu { num_counters, counter_width, available: true })
    }

    /// `PMCR_EL0` with the enable bit E set.
    pub fn enable_value(pmcr: u64) -> (r: u64)
        ensures
            r == pmcr | 1,
    {
        pmcr | 1
    }

    /// `PMCR_EL0` with the cycle (C) and event (P) counter reset bits set.
    pub fn reset_all_counters(pmcr: u64) -> (r: u64)
        ensures
            r == pmcr | 6,
    {
        let r = pmcr | 4 | 2;
        assert(pmcr | 4 | 2 == pmcr | 6) by (bit_vector);
        r
    }

    /// The words that program event counter `counter` with `config`.
    pub fn configure_counter(counter: u32, config: &PmuConfig) -> (r: Result<CounterProgram, &'static str>)
        requires
            counter < 64,
        ensures
            r == Ok::<CounterProgram, &'static str>(
                CounterProgram {
                    select: counter as u64,
                    event_type: event_type_word(*config),
                    enable_mask: 1u64 << counter,
                },
            ),
    {
        let kernel: u64 = if config.count_kernel {
            0
        } else {
            0x8000_0000
        };
        let user: u64 = if config.count_user {
            0
        } else {
            0x4000_0000
        };
        let event_type = (event_code(config.event) as u64) | kernel | user;
        Ok(CounterProgram { select: counter as u64, event_type, enable_mask: 1u64 << counter })
    }
}

/// Counter readings at the start of a profiling interval.
#[derive(Clone, Copy, Debug, PartialEq, Eq, Structural)]
pub struct AiPerfProfile {
    pub start_cycles: u64,
    pub start_instructions: u64,
    pub start_cache_misses: u64,
    pub start_branch_misses: u64,
}

/// Counts over a profiling interval.
#[derive(Clone, Copy, Debug, PartialEq, Eq, Structural)]
pub struct AiPerfCounts {
    pub cycles: u64,
    pub instructions: u64,
    pub cache_misses: u64,
    pub branch_misses: u64,
}

/// `end - start`, or 0 when the counter went backwards.
pub open spec fn counter_delta(end: u64, start: u64) -> u64 {
    if end >= start {
        (end - start) as u64
    } else {
        0
    }
}

impl AiPerfProfile {
    /// The configuration of profiling counter `counter`: retired
    /// instructions, L1 data refills, mispredicted branches.
    pub fn profile_config(counter: u32) -> (r: PmuConfig)
        requires
            counter < 3,
        ensures
            r.event == (if counter == 0 {
                PmuEvent::InstructionRetired
            } else if counter == 1 {
                PmuEvent::L1DCacheRefill
            } else {
                PmuEvent::BranchMispredicted
            }),
            !r.enable_interrupt && !r.enable_export && r.count_kernel && r.count_user,
    {
        let event = if counter == 0 {
            PmuEvent::InstructionRetired
        } else if counter == 1 {
            PmuEvent::L1DCacheRefill
        } else {
            PmuEvent::BranchMispredicted
        };
        PmuConfig { event, ..PmuConfig::default() }
    }

    /// Starts an interval at the given readings.
    pub fn start(cycles: u64, instructions: u64, cache_misses: u64, branch_misses: u64) -> (r: Self)
        ensures
            r == (AiPerfProfile {
                start_cycles: cycles,
                start_instructions: instructions,
                start_cache_misses: cache_misses,
                start_branch_misses: branch_misses,
            }),
    {
        AiPerfProfile {
            start_cycles: cycles,
            start_instructions: instructions,
            start_cache_misses: cache_misses,
            start_branch_misses: branch_misses,
        }
    }

    /// Ends the interval at the given readings.
    pub fn stop(&self, end_cycles: u64, end_instructions: u64, end_cache_misses: u64, end_branch_misses: u64) -> (r:
        AiPerfCounts)
        ensures
            r == (AiPerfCounts {
                cycles: counter_delta(end_cycles, self.start_cycles),
                instructions: counter_delta(end_instructions, self.start_instructions),
                cache_misses: counter_delta(end_cache_misses, self.start_cache_misses),
                branch_misses: counter_delta(end_branch_misses, self.start_branch_misses),
            }),
    {
        AiPerfCounts {
            cycles: end_cycles.saturating_sub(self.start_cycles),
            instructions: end_instructions.saturating_sub(self.start_instructions),
            cache_misses: end_cache_misses.saturating_sub(self.start_cache_misses),
            branch_misses: end_branch_misses.saturating_sub(self.start_branch_misses),
        }
    }
}

/// Performance counters kept per CPU.
#[derive(Clone, Copy, Debug, PartialEq, Eq, Structural)]
pub struct PerCpuPerfCounters {
    pub cycles: u64,
    pub instructions: u64,
    pub l1d_misses: u64,
}

/// Stores the current cycle, instruction and L1 data miss readings in the
/// per-CPU counters.
pub fn update_percpu_counters(counters: &mut PerCpuPerfCounters, cycles: u64, instructions: u64, l1d_misses: u64)
    ensures
        *final(counters) == (PerCpuPerfCounters { cycles, instructions, l1d_misses }),
{
    counters.cycles = cycles;
    counters.instructions = instructions;
    counters.l1d_misses = l1d_misses;
}

} // verus!
