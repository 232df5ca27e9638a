use sis_kernel::kernel::ai::simulator::{
    AnePipelineModel, NeuralEngineSimulator, SimdPipelineModel, SimulationConfig, SimulatorBackend,
};
use sis_kernel::kernel::ai::{CognitivePriority, WorkloadType};

#[test]
fn matrix_cycles_by_size() {
    assert_eq!(AnePipelineModel::matrix_cycles_for_size(0), 1);
    assert_eq!(AnePipelineModel::matrix_cycles_for_size(16 * 9), 9);
    assert_eq!(AnePipelineModel::matrix_cycles_for_size(4096), 64);
    assert_eq!(AnePipelineModel::matrix_cycles_for_size(1 << 20), 100);
}

#[test]
fn scaling_and_variations() {
    assert_eq!(AnePipelineModel::apply_workload_scaling(100, WorkloadType::RealTimeInference), 95);
    assert_eq!(AnePipelineModel::apply_workload_scaling(100, WorkloadType::Background), 110);
    assert_eq!(AnePipelineModel::apply_workload_scaling(100, WorkloadType::Training), 150);
    assert_eq!(AnePipelineModel::apply_workload_scaling(100, WorkloadType::Serving), 100);
    assert_eq!(AnePipelineModel::apply_system_variations(100, true, true), 132);
    assert_eq!(AnePipelineModel::apply_system_variations(100, false, true), 110);
    assert_eq!(AnePipelineModel::dma_variation(4096, 7), 6);
    assert_eq!(AnePipelineModel::dma_variation(1 << 20, 10), 10);
    assert!(AnePipelineModel::has_memory_contention(40));
    assert!(!AnePipelineModel::has_memory_contention(41));
    assert_eq!(AnePipelineModel::estimate_power(100), 60);
    assert_eq!(AnePipelineModel::estimate_power(100_000), 250);
    assert_eq!(SimdPipelineModel::estimate_power(5_000), 2005);
}

#[test]
fn ane_inference_cycles() {
    let mut m = AnePipelineModel::new();
    assert!(!m.is_thermal_throttling());
    let c = m.simulate_cycles(4096, WorkloadType::Interactive, 7, 1);
    assert_eq!(c.fetch_cycles, 21);
    assert_eq!(c.decode_cycles, 5);
    assert_eq!(c.matrix_cycles, 64);
    assert_eq!(c.activation_cycles, 3);
    assert_eq!(c.total_cycles, 93);
    let t = m.simulate_cycles(4096, WorkloadType::Training, 7, 20);
    assert_eq!(t.matrix_cycles, 96);
    assert_eq!(t.total_cycles, 137);
    let s = m.get_stats();
    assert_eq!(s.total_inferences, 2);
    assert_eq!(s.total_cycles, 230);
    assert_eq!(s.average_cycles, 115);
    assert_eq!(m.latency_us(3_000_000), 1000);
}

#[test]
fn simd_inference_cycles() {
    let mut m = SimdPipelineModel::new();
    let c = m.simulate_cycles(100, WorkloadType::Interactive);
    // 13 operations of 6 cycles, plus 10 %.
    assert_eq!(c.total_cycles, 85);
    assert_eq!(c.fetch_cycles, 21);
    assert_eq!(c.decode_cycles, 10);
    assert_eq!(c.matrix_cycles, 63);
    assert_eq!(m.latency_us(2_500_000), 1000);
    assert_eq!(m.get_stats().total_inferences, 1);
}

#[test]
fn backend_selection() {
    let x86 = NeuralEngineSimulator::new(SimulationConfig::default_for(false));
    assert_eq!(x86.select_backend(CognitivePriority::RealTimeInference), SimulatorBackend::SimdFallback);
    assert_eq!(x86.select_backend(CognitivePriority::Background), SimulatorBackend::SimdFallback);
    let mut arm = NeuralEngineSimulator::new(SimulationConfig::default_for(true));
    assert_eq!(arm.select_backend(CognitivePriority::RealTimeInference), SimulatorBackend::NeuralEngine);
    arm.current_backend = SimulatorBackend::SimdFallback;
    assert_eq!(arm.select_backend(CognitivePriority::Interactive), SimulatorBackend::SimdFallback);
    let (backend, cycles) =
        arm.simulate_cycles(100, WorkloadType::Interactive, CognitivePriority::Maintenance, 0, 1);
    assert_eq!(backend, SimulatorBackend::SimdFallback);
    assert_eq!(cycles.total_cycles, 85);
    let stats = arm.get_comprehensive_stats();
    assert_eq!(stats.simd_stats.total_inferences, 1);
    assert_eq!(stats.ane_stats.total_inferences, 0);
}
