use sis_kernel::arch::aarch64::smmu::{SMMUDevice, SMMUManager};
use sis_kernel::kernel::ai_runtime::AiRuntime;
use sis_kernel::kernel::ai_test::{
    get_test_stats, record_status, run_ai_test_suite, run_test, test_ai_runtime_init, test_capability_access,
    test_concurrent_execution, test_dma_isolation, test_error_handling, test_memory_safety, test_model_loading,
    test_performance_targets, test_quantized_inference, test_security_integration, AiTestResults, ExternalOutcomes,
    TestStatus,
};
use sis_kernel::kernel::capabilities::CapabilityManager;

/// IDR1 with 16-bit stream identifiers and 16-bit ASIDs.
const IDR1: u32 = (15 << 27) | (15 << 21);

fn smmu_with_device() -> SMMUManager {
    let device = SMMUDevice::init(0x0900_0000, 0x43B7, 0, IDR1, 0x1000_0000, 0x1001_0000, 0x1002_0000).unwrap().0;
    let mut m = SMMUManager::new();
    m.init(Ok(device)).unwrap();
    m
}

fn small_model() -> &'static [u8] {
    Box::leak(vec![0x5Au8; 1024].into_boxed_slice())
}

fn large_model() -> &'static [u8] {
    Box::leak(vec![0u8; 2 * 1024 * 1024].into_boxed_slice())
}

#[test]
fn tally_counts_each_outcome() {
    let mut r = AiTestResults::default();
    record_status(&mut r, TestStatus::Pass);
    record_status(&mut r, TestStatus::Fail);
    record_status(&mut r, TestStatus::Skip);
    record_status(&mut r, TestStatus::Pass);
    assert_eq!(r.tests_run, 4);
    assert_eq!(r.tests_passed, 2);
    assert_eq!(r.tests_failed, 1);
    assert_eq!(r.performance_tests, 0);
    let s = run_test("always fails", || TestStatus::Fail, &mut r);
    assert_eq!(s, TestStatus::Fail);
    assert_eq!(r.tests_run, 5);
    assert_eq!(r.tests_failed, 2);
    assert_eq!(get_test_stats(), AiTestResults::default());
}

#[test]
fn runtime_init_test_passes_once() {
    let mut rt = AiRuntime::new();
    assert_eq!(test_ai_runtime_init(&mut rt), TestStatus::Pass);
    assert_eq!(test_ai_runtime_init(&mut rt), TestStatus::Fail);
}

#[test]
fn model_loading_needs_initialized_runtime() {
    let mut rt = AiRuntime::new();
    let mut smmu = smmu_with_device();
    let model = small_model();
    assert_eq!(test_model_loading(&mut rt, &mut smmu, model), TestStatus::Fail);
    rt.init().unwrap();
    // The 784-byte INT8 DMA buffer is not a whole number of pages, so the
    // SMMU refuses the mapping and the load fails.
    assert_eq!(test_model_loading(&mut rt, &mut smmu, model), TestStatus::Fail);
    assert_eq!(rt.get_stats().total_inferences, 0);
}

#[test]
fn quantized_inference_needs_mappable_buffer() {
    let mut rt = AiRuntime::new();
    let mut smmu = smmu_with_device();
    let mut caps = CapabilityManager::new();
    let model = small_model();
    let ticks = std::cell::Cell::new(0u64);
    let clock = || {
        let t = ticks.get();
        ticks.set(t + 100);
        t
    };
    assert_eq!(test_quantized_inference(&mut rt, &mut smmu, &mut caps, model, &clock), TestStatus::Fail);
    rt.init().unwrap();
    // The 16-byte INT8 buffer cannot be mapped page-wise either.
    assert_eq!(test_quantized_inference(&mut rt, &mut smmu, &mut caps, model, &clock), TestStatus::Fail);
    assert_eq!(rt.get_stats().total_inferences, 0);
}

#[test]
fn fixed_outcome_tests() {
    assert_eq!(test_security_integration(0, 0), TestStatus::Pass);
    assert_eq!(test_security_integration(3, 1), TestStatus::Pass);
    assert_eq!(test_concurrent_execution(), TestStatus::Pass);
    assert_eq!(test_memory_safety(), TestStatus::Pass);
    let rt = AiRuntime::new();
    assert_eq!(test_performance_targets(&rt), TestStatus::Pass);
}

#[test]
fn capability_and_dma_tests() {
    let mut caps = CapabilityManager::new();
    assert_eq!(test_capability_access(&mut caps), TestStatus::Pass);
    let mut bare = SMMUManager::new();
    assert_eq!(test_dma_isolation(&mut bare), TestStatus::Fail);
    let mut smmu = smmu_with_device();
    assert_eq!(test_dma_isolation(&mut smmu), TestStatus::Pass);
}

#[test]
fn oversized_model_is_refused() {
    let mut rt = AiRuntime::new();
    let mut smmu = smmu_with_device();
    rt.init().unwrap();
    assert_eq!(test_error_handling(&mut rt, &mut smmu, large_model()), TestStatus::Pass);
}

#[test]
fn whole_suite_runs_thirteen_tests() {
    let mut rt = AiRuntime::new();
    let mut smmu = smmu_with_device();
    let mut caps = CapabilityManager::new();
    let ticks = std::cell::Cell::new(0u64);
    let clock = || {
        let t = ticks.get();
        ticks.set(t + 100);
        t
    };
    let external = ExternalOutcomes {
        npu_emulation: TestStatus::Pass,
        rt_scheduler: TestStatus::Skip,
        load_testing: TestStatus::Fail,
    };
    let r = run_ai_test_suite(&mut rt, &mut smmu, &mut caps, small_model(), large_model(), external, &clock).unwrap();
    assert_eq!(r.tests_run, 13);
    // One test skipped; model loading, quantized inference and load testing
    // failed.
    assert_eq!(r.tests_passed + r.tests_failed, 12);
    assert_eq!(r.tests_failed, 3);
    assert_eq!(r.tests_passed, 9);
}
