use sis_kernel::arch::aarch64::smmu::SMMUManager;
use sis_kernel::kernel::ai_runtime::{
    infer_int16, needs_dma_buffer, validate_performance_target, AiRuntime, InferenceStats, QuantizationType,
    TensorShape,
};
use sis_kernel::kernel::capabilities::{CapabilityManager, CapabilityRights, CapabilityType};

const MODEL: [u8; 16] = [7; 16];

fn shape(dims: &[usize]) -> TensorShape {
    TensorShape::new(dims).unwrap()
}

fn no_kernel(_x: &[u8]) -> Vec<u8> {
    Vec::new()
}

#[test]
fn tensor_shape_checks() {
    let s = shape(&[2, 3, 4]);
    assert_eq!(s.total_elements, 24);
    assert_eq!(s.num_dims, 3);
    assert_eq!(s.dims, [2, 3, 4, 0]);
    assert_eq!(TensorShape::new(&[1, 2, 3, 4, 5]), Err("Too many tensor dimensions"));
    assert_eq!(TensorShape::new(&[4, 0]), Err("Zero dimension not allowed"));
    assert_eq!(TensorShape::new(&[usize::MAX, 2]), Err("Tensor size overflow"));
    assert_eq!(TensorShape::new(&[256, 257]), Err("Tensor too large"));
    assert_eq!(TensorShape::new(&[256, 256]).unwrap().total_elements, 65536);
    assert_eq!(TensorShape::new(&[]).unwrap().total_elements, 1);
}

#[test]
fn memory_size_by_type() {
    let s = shape(&[10, 10]);
    assert_eq!(s.memory_size(QuantizationType::Float32), 400);
    assert_eq!(s.memory_size(QuantizationType::Int8Symmetric), 100);
    assert_eq!(s.memory_size(QuantizationType::Int8Asymmetric), 100);
    assert_eq!(s.memory_size(QuantizationType::Int16), 200);
    assert!(!needs_dma_buffer(QuantizationType::Float32));
    assert!(needs_dma_buffer(QuantizationType::Int16));
}

#[test]
fn inference_statistics() {
    let mut s = InferenceStats::default();
    assert_eq!(s.average_latency_cycles(), 0);
    s.record_inference(500);
    s.record_inference(300);
    s.record_inference(700);
    assert_eq!(s.total_inferences, 3);
    assert_eq!(s.total_cycles, 1500);
    assert_eq!(s.min_latency_cycles, 300);
    assert_eq!(s.max_latency_cycles, 700);
    assert_eq!(s.average_latency_cycles(), 500);
    s.record_failure();
    s.record_security_violation();
    assert_eq!(s.failed_inferences, 1);
    assert_eq!(s.security_violations, 1);
}

#[test]
fn runtime_lifecycle_errors() {
    let mut rt = AiRuntime::new();
    let mut smmu = SMMUManager::new();
    let r = rt.load_model(&mut smmu, &MODEL, [0; 32], shape(&[4]), shape(&[4]), QuantizationType::Float32, 1, Ok(true));
    assert_eq!(r, Err("AI runtime not initialized"));
    assert_eq!(rt.init(), Ok(()));
    assert_eq!(rt.init(), Err("AI runtime already initialized"));
    let r = rt.load_model(&mut smmu, &MODEL, [0; 32], shape(&[4]), shape(&[4]), QuantizationType::Float32, 1, Err("bad hash"));
    assert_eq!(r, Err("bad hash"));
    assert_eq!(rt.unload_model(&mut smmu, 16), Err("Invalid model ID"));
    assert_eq!(validate_performance_target(&rt), Ok(true));
}

#[test]
fn sixteen_slots() {
    let mut rt = AiRuntime::new();
    let mut smmu = SMMUManager::new();
    rt.init().unwrap();
    for expected in 0..16u32 {
        let id = rt
            .load_model(&mut smmu, &MODEL, [1; 32], shape(&[4]), shape(&[4]), QuantizationType::Float32, 1, Ok(true))
            .unwrap();
        assert_eq!(id, expected);
    }
    let r = rt.load_model(&mut smmu, &MODEL, [1; 32], shape(&[4]), shape(&[4]), QuantizationType::Float32, 1, Ok(true));
    assert_eq!(r, Err("No free model slots"));
    assert_eq!(rt.unload_model(&mut smmu, 5), Ok(()));
    let id = rt
        .load_model(&mut smmu, &MODEL, [1; 32], shape(&[4]), shape(&[4]), QuantizationType::Float32, 1, Ok(true))
        .unwrap();
    assert_eq!(id, 5);
}

#[test]
fn int8_inference_with_capability() {
    let mut rt = AiRuntime::new();
    let mut smmu = SMMUManager::new();
    smmu.init(Err("no SMMU")).unwrap();
    rt.init().unwrap();
    // Without an SMMU window no DMA buffer can be mapped.
    let r = rt.load_model(&mut smmu, &MODEL, [2; 32], shape(&[4]), shape(&[4]), QuantizationType::Int8Symmetric, 1, Ok(true));
    assert_eq!(r, Err("No suitable IOVA range available"));

    let mut caps = CapabilityManager::new();
    let cap = caps
        .create_capability(
            CapabilityType::AIModel,
            CapabilityRights::new(CapabilityRights::EXECUTE | CapabilityRights::READ),
            0,
            16,
            0,
            0,
        )
        .unwrap();
    let clock_ticks = std::cell::Cell::new(100u64);
    let clock = || {
        let t = clock_ticks.get();
        clock_ticks.set(t + 250);
        t
    };
    // A float model runs through the supplied kernel.
    let id = rt
        .load_model(&mut smmu, &MODEL, [2; 32], shape(&[4]), shape(&[2]), QuantizationType::Float32, 1, Ok(true))
        .unwrap();
    let kernel = |x: &[u8]| -> Vec<u8> { x[..8].to_vec() };
    let input = [1u8; 16];
    let mut out = vec![0u8; 8];
    assert_eq!(rt.infer(&mut caps, id, &input, &mut out, cap, &kernel, &clock), Ok(250));
    assert_eq!(out, vec![1u8; 8]);
    assert_eq!(rt.get_stats().total_inferences, 1);
    // Wrong sizes and missing rights.
    assert_eq!(rt.infer(&mut caps, id, &input[..4], &mut out, cap, &kernel, &clock), Err("Invalid input data size"));
    assert_eq!(
        rt.infer(&mut caps, id, &input, &mut out, cap + 100, &no_kernel, &clock),
        Err("Insufficient capabilities for inference")
    );
    assert_eq!(rt.get_stats().security_violations, 1);
    assert_eq!(rt.infer(&mut caps, 9, &input, &mut out, cap, &no_kernel, &clock), Err("Invalid model ID"));
}

#[test]
fn int16_saturates() {
    let input: Vec<u8> = [100i16, 32700, -5].iter().flat_map(|v| v.to_le_bytes()).collect();
    let mut out = vec![0u8; 6];
    assert_eq!(infer_int16(&input, &mut out), Ok(()));
    let vals: Vec<i16> = out.chunks(2).map(|c| i16::from_le_bytes([c[0], c[1]])).collect();
    assert_eq!(vals, vec![200, i16::MAX, 95]);
}
