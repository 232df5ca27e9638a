use sis_kernel::kernel::ai::hardware_accel::{
    execute_operation, get_hw_accel_stats, init, AccelCapabilities, AccelDevice, AccelOperation, AccelType,
    HardwareAccelManager,
};
use sis_kernel::kernel::ai::memory_pool::AIMemoryManager;

#[test]
fn device_runs_operations() {
    let caps = AccelCapabilities {
        accel_type: AccelType::DSP,
        compute_units: 2,
        memory_bandwidth_mbps: 100,
        peak_flops: 1000,
        mixed_precision: false,
        sparse_ops: false,
    };
    let mut mem = AIMemoryManager::new();
    let a = mem.allocate(16).unwrap();
    let b = mem.allocate(16).unwrap();
    let mut d = AccelDevice::new(caps);
    assert!(d.is_available());
    assert_eq!(d.utilization(), 0);
    assert_eq!(d.capabilities().compute_units, 2);
    // The device clock does not move during an operation.
    assert_eq!(d.execute_operation(&a, &b, AccelOperation::Custom), Ok(0));
    let s = d.get_stats();
    assert_eq!(s.operations_completed, 1);
    assert_eq!(s.utilization, 10);
}

#[test]
fn manager_picks_best_device() {
    let mut mem = AIMemoryManager::new();
    let a = mem.allocate(16).unwrap();
    let b = mem.allocate(16).unwrap();
    let mut m = HardwareAccelManager::new();
    assert!(m.execute_operation(&a, &b, AccelOperation::MatMul).is_err());
    assert_eq!(m.init(true), Ok(()));
    let stats = m.get_stats();
    assert_eq!(stats[0].unwrap().accel_type, AccelType::CPU);
    assert_eq!(stats[1].unwrap().accel_type, AccelType::NPU);
    assert_eq!(stats[2].unwrap().accel_type, AccelType::GPU);
    assert!(stats[3].is_none());
    // MatMul: the Neural Engine scores 100 + 50.
    assert_eq!(m.execute_operation(&a, &b, AccelOperation::MatMul), Ok(0));
    assert_eq!(m.get_stats()[1].unwrap().operations_completed, 1);
    // Convolution: the busy NPU scores 90 + 40, the idle GPU 100 + 35.
    assert_eq!(m.execute_operation(&a, &b, AccelOperation::Convolution), Ok(0));
    assert_eq!(m.get_stats()[2].unwrap().operations_completed, 1);
    // Activation: CPU 110 beats the idle-ish NPU (90) and GPU (90).
    assert_eq!(m.execute_operation(&a, &b, AccelOperation::Activation), Ok(0));
    assert_eq!(m.get_stats()[0].unwrap().operations_completed, 1);
    assert_eq!(m.total_operations(), 3);
}

#[test]
fn manager_without_npu() {
    let mut m = HardwareAccelManager::new();
    m.init(false).unwrap();
    let stats = m.get_stats();
    assert_eq!(stats[0].unwrap().accel_type, AccelType::CPU);
    assert_eq!(stats[1].unwrap().accel_type, AccelType::GPU);
    assert!(stats[2].is_none());
}

#[test]
fn global_manager() {
    let mut mem = AIMemoryManager::new();
    let a = mem.allocate(16).unwrap();
    let mut g: Option<HardwareAccelManager> = None;
    assert!(get_hw_accel_stats(&g).is_err());
    assert!(execute_operation(&mut g, &a, &a, AccelOperation::Pooling).is_err());
    assert_eq!(init(&mut g, true), Ok(()));
    assert_eq!(execute_operation(&mut g, &a, &a, AccelOperation::Pooling), Ok(0));
    assert_eq!(get_hw_accel_stats(&g).unwrap()[0].unwrap().operations_completed, 1);
}
