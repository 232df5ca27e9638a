use sis_kernel::arch::aarch64::smp::{is_psci_available, CpuData, Smp, MAX_CPUS, SECONDARY_STACK_SIZE};

fn psci_ok(_mpidr: u64, _entry: u64, _ctx: u64) -> i64 {
    0
}

#[test]
fn new_table_has_only_boot_cpu_online() {
    let smp = Smp::new();
    assert_eq!(smp.cpus.len(), MAX_CPUS);
    assert_eq!(smp.online_cpu_count(), 1);
    assert!(smp.cpus.iter().all(|c| *c == CpuData::new()));
    assert!(!smp.is_cpu_online(0));
    assert!(!smp.is_cpu_online(1000));
}

#[test]
fn boot_cpu_and_discovery() {
    let mut smp = Smp::new();
    assert_eq!(smp.init_boot_cpu(0x8000_0000, -1), Err("PSCI not available - SMP disabled"));
    assert!(smp.is_cpu_online(0));
    assert_eq!(smp.cpus[1].mpidr, 0);
    let mut smp = Smp::new();
    assert_eq!(smp.init_boot_cpu(0x8000_0000, 0x10000), Ok(()));
    assert_eq!(smp.cpus[0].mpidr, 0x8000_0000);
    assert!(smp.cpus[0].ready);
    for i in 1..4 {
        assert_eq!(smp.cpus[i].cpu_id, i as u32);
        assert_eq!(smp.cpus[i].mpidr, i as u64);
    }
    assert_eq!(smp.cpus[4].mpidr, 0);
    assert_eq!(smp.current_cpu_id(2), 2);
    assert_eq!(smp.current_cpu_id(0x8000_0000), 0);
    assert_eq!(smp.current_cpu_id(0xABCD), 0);
}

#[test]
fn cpu_on_checks_and_errors() {
    let mut smp = Smp::new();
    smp.init_boot_cpu(0, 1).unwrap();
    assert_eq!(smp.cpu_on(300, 0x4000, 0, 0x10000, &psci_ok), Err("Invalid CPU ID"));
    assert_eq!(smp.cpu_on(0, 0x4000, 0, 0x10000, &psci_ok), Err("Cannot bring up boot CPU"));
    let denied = |_m: u64, _e: u64, _c: u64| -> i64 { -4 };
    assert_eq!(smp.cpu_on(1, 0x4000, 7, 0x10000, &denied), Err("CPU already on"));
    assert!(!smp.is_cpu_online(1));
    assert_eq!(smp.cpus[1].stack_ptr, 0x10000 + SECONDARY_STACK_SIZE);
    let pending = |_m: u64, _e: u64, _c: u64| -> i64 { -5 };
    assert_eq!(smp.cpu_on(1, 0x4000, 7, 0x10000, &pending), Err("CPU on pending"));
    let failed = |_m: u64, _e: u64, _c: u64| -> i64 { -2 };
    assert_eq!(smp.cpu_on(1, 0x4000, 7, 0x10000, &failed), Err("PSCI CPU_ON failed"));
    assert_eq!(smp.cpu_on(1, 0x4000, 7, 0x10000, &psci_ok), Ok(()));
    assert!(smp.is_cpu_online(1));
    assert_eq!(smp.online_cpu_count(), 2);
    assert_eq!(smp.cpus[1].entry_point, 0x4000);
    assert_eq!(smp.cpus[1].context_ptr, 7);
    assert_eq!(smp.cpu_on(1, 0x4000, 7, 0x10000, &psci_ok), Err("CPU already online"));
}

#[test]
fn bring_up_discovered_cpus() {
    let mut smp = Smp::new();
    smp.init_boot_cpu(0, 1).unwrap();
    let stack_for = |id: u32| -> u64 { 0x100_0000 + (id as u64) * SECONDARY_STACK_SIZE };
    assert_eq!(smp.bring_up_secondary_cpus(0x8_0000, &stack_for, &psci_ok), Ok(3));
    assert_eq!(smp.online_cpu_count(), 4);
    for i in 1..4u32 {
        assert!(smp.is_cpu_online(i));
        assert_eq!(smp.cpus[i as usize].context_ptr, i as u64);
    }
    assert!(!smp.is_cpu_online(4));
}

#[test]
fn bring_up_stops_at_first_failure() {
    let mut smp = Smp::new();
    smp.init_boot_cpu(0, 1).unwrap();
    let only_first = |mpidr: u64, _e: u64, _c: u64| -> i64 { if mpidr == 1 { 0 } else { -6 } };
    let stack_for = |_id: u32| -> u64 { 0x200_0000 };
    assert_eq!(smp.bring_up_secondary_cpus(0x8_0000, &stack_for, &only_first), Ok(1));
    assert_eq!(smp.online_cpu_count(), 2);
    assert!(smp.is_cpu_online(1));
    assert!(!smp.is_cpu_online(2));
    assert!(!smp.is_cpu_online(3));
}

#[test]
fn psci_presence() {
    assert!(is_psci_available(0));
    assert!(is_psci_available(0x10001));
    assert!(!is_psci_available(-1));
}
