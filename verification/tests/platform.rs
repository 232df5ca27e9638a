use sis_kernel::arch::x86_64::predictive_power::{BatteryClass, PowerPredictor, RaceToSleep, SystemPowerStats};
use sis_kernel::arch::x86_64::smp::ci_fixes::{
    ap_is_ready, ap_signal_ready, ap_wait_timeout_ms, get_timeout_multiplier, ipi_poll_outcome, is_ci_environment,
    send_ipi_checked, PaddedAtomicU32, AP_BOOT_SUCCESS, MAX_IPI_POLLS,
};
use sis_kernel::arch::x86_64::topology::{apic_from_cpu_index, cpu_index_from_apic, cpu_index_this, online_cpus};
use sis_kernel::kernel::affinity::{set_core_affinity, set_gpu_affinity};
use sis_kernel::kernel::ai::{CognitivePriority, WorkloadType};
use std::cell::Cell;

#[test]
fn battery_classes() {
    assert_eq!(BatteryClass::from_soc_percent(0), BatteryClass::Critical);
    assert_eq!(BatteryClass::from_soc_percent(9), BatteryClass::Critical);
    assert_eq!(BatteryClass::from_soc_percent(10), BatteryClass::Low);
    assert_eq!(BatteryClass::from_soc_percent(30), BatteryClass::Low);
    assert_eq!(BatteryClass::from_soc_percent(31), BatteryClass::Medium);
    assert_eq!(BatteryClass::from_soc_percent(70), BatteryClass::Medium);
    assert_eq!(BatteryClass::from_soc_percent(90), BatteryClass::High);
    assert_eq!(BatteryClass::from_soc_percent(91), BatteryClass::Full);
    // A fuller battery never gets a lower class.
    let rank = |c| match c {
        BatteryClass::Critical => 0,
        BatteryClass::Low => 1,
        BatteryClass::Medium => 2,
        BatteryClass::High => 3,
        BatteryClass::Full => 4,
    };
    for soc in 0..100u8 {
        assert!(rank(BatteryClass::from_soc_percent(soc)) <= rank(BatteryClass::from_soc_percent(soc + 1)));
    }
}

#[test]
fn fixed_power_policy() {
    assert!(!RaceToSleep::should_race(WorkloadType::Training, CognitivePriority::Background, BatteryClass::Full, 10));
    assert_eq!(PowerPredictor::new().predict_utilization_q15(), 16384);
    let s = SystemPowerStats::default();
    assert_eq!(s.current_power_mw, 2000);
    assert_eq!(s.battery_soc_percent, 75);
}

#[test]
fn topology_and_affinity() {
    assert_eq!(online_cpus(), [0]);
    assert_eq!(cpu_index_this(), 0);
    assert_eq!(cpu_index_from_apic(7), 7);
    assert_eq!(apic_from_cpu_index(7), 7);
    for apic in [0u32, 1, 255, u32::MAX] {
        assert_eq!(apic_from_cpu_index(cpu_index_from_apic(apic)), apic);
    }
    assert_eq!(set_core_affinity(3), Ok(()));
    assert_eq!(set_gpu_affinity(0), Ok(()));
}

#[test]
fn ap_timing_policy() {
    assert!(!is_ci_environment());
    assert_eq!(get_timeout_multiplier(false), 1);
    assert_eq!(get_timeout_multiplier(true), 10);
    assert_eq!(ap_wait_timeout_ms(true), 30_000);
    assert_eq!(ap_wait_timeout_ms(false), 10_000);
    assert_eq!(ipi_poll_outcome(MAX_IPI_POLLS), Ok(()));
    assert_eq!(ipi_poll_outcome(MAX_IPI_POLLS + 1), Err("IPI delivery timeout"));
    assert!(ap_is_ready(AP_BOOT_SUCCESS));
    assert!(!ap_is_ready(0));
}

#[test]
fn ipi_delivery() {
    let sent = Cell::new(None);
    let send = |apic: u32, vector: u32| sent.set(Some((apic, vector)));
    let polls = Cell::new(0u32);
    let pending_twice = || {
        polls.set(polls.get() + 1);
        polls.get() <= 2
    };
    assert_eq!(send_ipi_checked(4, 0x30, &send, &pending_twice), Ok(()));
    assert_eq!(sent.get(), Some((4, 0x30)));
    assert_eq!(polls.get(), 3);
    let stuck = || true;
    assert_eq!(send_ipi_checked(4, 0x30, &send, &stuck), Err("IPI delivery timeout"));
}

#[test]
fn ap_reports_ready() {
    let mut statuses = vec![PaddedAtomicU32::new(0); 4];
    let sent = Cell::new(None);
    let send = |apic: u32, vector: u32| sent.set(Some((apic, vector)));
    let idle = || false;
    ap_signal_ready(&mut statuses, 2, &send, &idle);
    assert_eq!(statuses[2], PaddedAtomicU32(AP_BOOT_SUCCESS));
    assert_eq!(statuses[1], PaddedAtomicU32(0));
    assert_eq!(sent.get(), Some((0, 0xF2)));
}
