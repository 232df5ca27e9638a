use sis_kernel::arch::aarch64::cpu::{detect_core_type, get_cpu_id, ARM64CoreType};
use sis_kernel::arch::aarch64::pmu::{
    event_code, update_percpu_counters, AiPerfProfile, CounterProgram, PerCpuPerfCounters, Pmu, PmuConfig,
    PmuEvent,
};

#[test]
fn pmu_init_reads_id_registers() {
    // PMUVer 0 and 0xF mean no PMU.
    assert_eq!(Pmu::init(0, 0), Err("PMU not available"));
    assert_eq!(Pmu::init(0xF << 8, 0), Err("PMU not available"));
    // Six counters (PMCR.N = 6) with 64-bit counters (PMCR.LC).
    let pmu = Pmu::init(0x4 << 8, (6 << 11) | 0x40).unwrap();
    assert_eq!(pmu.num_counters, 6);
    assert_eq!(pmu.counter_width, 64);
    assert!(pmu.available);
    let narrow = Pmu::init(0x1 << 8, 31 << 11).unwrap();
    assert_eq!(narrow.num_counters, 31);
    assert_eq!(narrow.counter_width, 32);
}

#[test]
fn pmcr_words() {
    assert_eq!(Pmu::enable_value(0x40), 0x41);
    assert_eq!(Pmu::reset_all_counters(0x1), 0x7);
}

#[test]
fn configure_counter_words() {
    let config = PmuConfig { event: PmuEvent::InstructionRetired, ..PmuConfig::default() };
    assert_eq!(
        Pmu::configure_counter(2, &config),
        Ok(CounterProgram { select: 2, event_type: 0x08, enable_mask: 0b100 })
    );
    let kernel_only = PmuConfig { event: PmuEvent::L1DCacheRefill, count_user: false, ..PmuConfig::default() };
    assert_eq!(
        Pmu::configure_counter(0, &kernel_only),
        Ok(CounterProgram { select: 0, event_type: 0x4000_0003, enable_mask: 1 })
    );
    let neither = PmuConfig { event: PmuEvent::NeonInstruction, count_user: false, count_kernel: false, ..PmuConfig::default() };
    assert_eq!(Pmu::configure_counter(5, &neither).unwrap().event_type, 0xC000_0064);
}

#[test]
fn event_codes() {
    assert_eq!(event_code(PmuEvent::CycleCount), 0x11);
    assert_eq!(event_code(PmuEvent::BranchMispredicted), 0x10);
    assert_eq!(event_code(PmuEvent::SveInstruction), 0x67);
}

#[test]
fn profile_interval_counts() {
    assert_eq!(AiPerfProfile::profile_config(0).event, PmuEvent::InstructionRetired);
    assert_eq!(AiPerfProfile::profile_config(1).event, PmuEvent::L1DCacheRefill);
    assert_eq!(AiPerfProfile::profile_config(2).event, PmuEvent::BranchMispredicted);
    let p = AiPerfProfile::start(1000, 500, 10, 3);
    let c = p.stop(5000, 2500, 15, 2);
    assert_eq!(c.cycles, 4000);
    assert_eq!(c.instructions, 2000);
    assert_eq!(c.cache_misses, 5);
    // A counter that went backwards counts zero.
    assert_eq!(c.branch_misses, 0);
}

#[test]
fn percpu_update() {
    let mut c = PerCpuPerfCounters { cycles: 1, instructions: 2, l1d_misses: 3 };
    update_percpu_counters(&mut c, 10, 20, 30);
    assert_eq!(c, PerCpuPerfCounters { cycles: 10, instructions: 20, l1d_misses: 30 });
}

#[test]
fn cpu_identification() {
    assert_eq!(get_cpu_id(0x8000_0103), 3);
    let a55 = (0x41u64 << 24) | (0xD05 << 4);
    let a76 = (0x41u64 << 24) | (0xD0B << 4);
    let apple = (0x61u64 << 24) | (0x022 << 4);
    assert_eq!(detect_core_type(a55, 0), ARM64CoreType::CortexA55);
    assert_eq!(detect_core_type(a76, 0), ARM64CoreType::CortexA76);
    assert_eq!(detect_core_type(apple, 2), ARM64CoreType::AppleFirestorm);
    assert_eq!(detect_core_type(apple, 5), ARM64CoreType::AppleIcestorm);
    assert_eq!(detect_core_type(0, 0), ARM64CoreType::CortexA72);
}
