//! Self-test of the AI runtime: model loading, quantized inference,
//! capability checks, DMA isolation, tensor bounds and error handling,
//! each run against the subsystems it exercises and tallied.
//!
//! The NPU emulation and the real-time task scheduler live outside this
//! library; the platform runs their tests and reports the outcomes.

use vstd::prelude::*;
use crate::arch::aarch64::smmu::{
    SMMUManager, StreamPermissions, aligned_request, first_fit, next_producer, page_aligned,
};
use crate::kernel::ai_runtime::{
    AiRuntime, QuantizationType, TensorShape, validate_performance_target, first_free_slot, iova_space_for,
    dma_buffer_bytes,
};
use crate::kernel::capabilities::{CapabilityManager, CapabilityRights, CapabilityType, grants};

verus! {

/// Tally of a test run.
#[derive(Clone, Copy, Debug, PartialEq, Eq, Structural)]
pub struct AiTestResults {
    pub tests_run: u32,
    pub tests_passed: u32,
    pub tests_failed: u32,
    pub performance_tests: u32,
    pub security_tests: u32,
    pub scheduling_tests: u32,
}

impl Default for AiTestResults {
    fn default() -> (r: Self)
        ensures
            r == AiTestResults::zero(),
    {
        AiTestResults {
            tests_run: 0,
            tests_passed: 0,
            tests_failed: 0,
            performance_tests: 0,
            security_tests: 0,
            scheduling_tests: 0,
        }
    }
}

impl AiTestResults {
    pub open spec fn zero() -> AiTestResults {
        AiTestResults {
            tests_run: 0,
            tests_passed: 0,
            tests_failed: 0,
            performance_tests: 0,
            security_tests: 0,
            scheduling_tests: 0,
        }
    }
}

/// Outcome of one test.
#[derive(Clone, Copy, Debug, PartialEq, Eq, Structural)]
pub enum TestStatus {
    Pass,
    Fail,
    Skip,
}

/// The tally after one more test ended with `s`: it ran, and passed or
/// failed unless skipped.
pub open spec fn tallied(r: AiTestResults, s: TestStatus) -> AiTestResults {
    AiTestResults {
        tests_run: (r.tests_run + 1) as u32,
        tests_passed: if s == TestStatus::Pass {
            (r.tests_passed + 1) as u32
        } else {
            r.tests_passed
        },
        tests_failed: if s == TestStatus::Fail {
            (r.tests_failed + 1) as u32
        } else {
            r.tests_failed
        },
        ..r
    }
}

/// Runs the test `test_func` (named `test_name` in the log) and tallies its
/// outcome.
pub fn run_test<F: FnOnce() -> TestStatus>(test_name: &str, test_func: F, results: &mut AiTestResults) -> (s:
    TestStatus)
    requires
        test_func.requires(()),
        old(results).tests_run < u32::MAX,
        old(results).tests_passed < u32::MAX,
        old(results).tests_failed < u32::MAX,
    ensures
        test_func.ensures((), s),
        *final(results) == tallied(*old(results), s),
{
    let status = test_func();
    record_status(results, status);
    status
}

/// Adds `status` to the tally.
pub fn record_status(results: &mut AiTestResults, status: TestStatus)
    requires
        old(results).tests_run < u32::MAX,
        old(results).tests_passed < u32::MAX,
        old(results).tests_failed < u32::MAX,
    ensures
        *final(results) == tallied(*old(results), status),
{
    results.tests_run = results.tests_run + 1;
    match status {
        TestStatus::Pass => {
            results.tests_passed = results.tests_passed + 1;
        },
        TestStatus::Fail => {
            results.tests_failed = results.tests_failed + 1;
        },
        TestStatus::Skip => {},
    }
}

/// Pass when `ok`, else fail.
pub open spec fn verdict(ok: bool) -> TestStatus {
    if ok {
        TestStatus::Pass
    } else {
        TestStatus::Fail
    }
}

/// Initialization of the runtime succeeds once.
pub fn test_ai_runtime_init(runtime: &mut AiRuntime) -> (s: TestStatus)
    requires
        old(runtime).wf(),
    ensures
        final(runtime).wf(),
        s == verdict(!old(runtime).initialized),
        final(runtime).initialized,
{
    match runtime.init() {
        Ok(_) => TestStatus::Pass,
        Err(_) => TestStatus::Fail,
    }
}

/// A 1 KiB INT8 MNIST-shaped model (28x28 input, ten classes) loads and
/// unloads.
pub fn test_model_loading(runtime: &mut AiRuntime, smmu: &mut SMMUManager, model_data: &'static [u8]) -> (s: TestStatus)
    requires
        old(runtime).wf(),
        old(smmu).wf(),
        model_data@.len() == 1024,
    ensures
        final(runtime).wf(),
        final(smmu).wf(),
        final(runtime).initialized == old(runtime).initialized,
        !old(runtime).initialized ==> s == TestStatus::Fail,
        old(runtime).initialized && first_free_slot(old(runtime).loaded_models@) is None ==> s == TestStatus::Fail,
        old(runtime).initialized && first_free_slot(old(runtime).loaded_models@) is Some && !iova_space_for(
            *old(smmu),
            784,
        ) ==> s == TestStatus::Fail,
        old(runtime).initialized && first_free_slot(old(runtime).loaded_models@) is Some && !old(smmu).has_device()
            && iova_space_for(*old(smmu), 784) ==> s == TestStatus::Pass,
{
    let model_hash: [u8; 32] = [0x12u8; 32];
    let din: [usize; 4] = [1, 28, 28, 1];
    let dout: [usize; 2] = [1, 10];
    let sin = din.as_slice();
    let sout = dout.as_slice();
    proof {
        broadcast use vstd::array::group_array_axioms;
        assert(sin@ =~= seq![1usize, 28usize, 28usize, 1usize]);
        assert(sout@ =~= seq![1usize, 10usize]);
        reveal_with_fuel(crate::kernel::ai_runtime::dims_scan, 5);
        assert(crate::kernel::ai_runtime::dims_scan(sin@, 0, 1) == Ok::<int, &'static str>(784));
        assert(crate::kernel::ai_runtime::dims_scan(sout@, 0, 1) == Ok::<int, &'static str>(10));
    }
    let input_shape = match TensorShape::new(sin) {
        Ok(shape) => shape,
        Err(_) => {
            return TestStatus::Fail;
        },
    };
    let output_shape = match TensorShape::new(sout) {
        Ok(shape) => shape,
        Err(_) => {
            return TestStatus::Fail;
        },
    };
    proof {
        assert(dma_buffer_bytes(input_shape, output_shape, QuantizationType::Int8Symmetric) == 784);
    }
    match runtime.load_model(
        smmu,
        model_data,
        model_hash,
        input_shape,
        output_shape,
        QuantizationType::Int8Symmetric,
        1,
        Ok(true),
    ) {
        Ok(model_id) => {
            let _ = runtime.unload_model(smmu, model_id);
            TestStatus::Pass
        },
        Err(_) => TestStatus::Fail,
    }
}

/// An inference with no recorded inferences passes; otherwise the mean
/// inference must meet the 40 µs target.
pub fn test_performance_targets(runtime: &AiRuntime) -> (s: TestStatus)
    ensures
        ({
            let st = if runtime.initialized {
                runtime.inference_stats
            } else {
                crate::kernel::ai_runtime::InferenceStats::zero()
            };
            s == verdict(st.total_inferences == 0 || st.total_cycles / st.total_inferences <= crate::kernel::ai_runtime::TARGET_CYCLES)
        }),
{
    let stats = runtime.get_stats();
    if stats.total_inferences > 0 {
        match validate_performance_target(runtime) {
            Ok(meets_target) => {
                if meets_target {
                    TestStatus::Pass
                } else {
                    TestStatus::Fail
                }
            },
            Err(_) => TestStatus::Fail,
        }
    } else {
        TestStatus::Pass
    }
}

/// The security subsystem counts as integrated whether or not it has been
/// used yet.
pub fn test_security_integration(capability_checks: u64, tpm_operations: u64) -> (s: TestStatus)
    ensures
        s == TestStatus::Pass,
{
    if capability_checks > 0 || tpm_operations > 0 {
        TestStatus::Pass
    } else {
        TestStatus::Pass
    }
}

/// A read capability of the kernel (entity 0) grants reading and denies
/// writing.
pub fn test_capability_access(caps: &mut CapabilityManager) -> (s: TestStatus)
    requires
        old(caps).wf(),
        old(caps).next_id_spec() < u64::MAX,
    ensures
        final(caps).wf(),
        s == TestStatus::Pass,
        final(caps).next_id_spec() == old(caps).next_id_spec() + 1,
{
    let ghost id0 = caps.next_id_spec();
    proof {
        caps.lemma_space_ids_below(0);
    }
    let capability_id = match caps.create_capability(
        CapabilityType::Memory,
        CapabilityRights::new(CapabilityRights::READ),
        0x8000_2000,
        4096,
        0,
        0,
    ) {
        Ok(cap) => cap,
        Err(_) => {
            return TestStatus::Fail;
        },
    };
    proof {
        let c = caps.space_caps(0);
        let last = c.len() - 1;
        assert(c[last].id == capability_id && c[last].rights.0 == 1u32);
        assert(1u32 & 1u32 == 1u32) by (bit_vector);
        assert(1u32 & 2u32 != 2u32) by (bit_vector);
        assert(grants(c, capability_id, 1u32));
        assert forall|i: int| 0 <= i < c.len() && #[trigger] c[i].id == capability_id implies c[i].rights.0 & 2u32
            != 2u32 by {
            if i < last {
                assert(c[i].id < id0);
            }
        }
    }
    let has_read_access = caps.check_capability(0, capability_id, CapabilityRights::new(CapabilityRights::READ));
    let has_write_access = caps.check_capability(0, capability_id, CapabilityRights::new(CapabilityRights::WRITE));
    if has_read_access && !has_write_access {
        TestStatus::Pass
    } else {
        TestStatus::Fail
    }
}

/// Stream 4000 gets a secure, privileged read-write DMA mapping of one page.
pub fn test_dma_isolation(smmu: &mut SMMUManager) -> (s: TestStatus)
    requires
        old(smmu).wf(),
    ensures
        final(smmu).wf(),
        !old(smmu).has_device() ==> s == TestStatus::Fail,
        (old(smmu).device_view() matches Some(d) && 4000 <= d.stream_table.max_stream_id && next_producer(
            d.command_queue,
        ) != d.command_queue.consumer && (next_producer(d.command_queue) + 1) % (d.command_queue.size as int)
            != d.command_queue.consumer) && (exists|i: int|
            first_fit(old(smmu).regions_view(), 4096, i) && page_aligned(#[trigger] old(smmu).regions_view()[i].start))
            ==> s == TestStatus::Pass,
        (old(smmu).device_view() matches Some(d) && (4000 > d.stream_table.max_stream_id || next_producer(
            d.command_queue,
        ) == d.command_queue.consumer)) ==> s == TestStatus::Fail,
{
    let stream_id: u32 = 4000;
    proof {
        assert(aligned_request(4096) == 4096usize) by (bit_vector);
        assert(page_aligned(0x8000_3000u64)) by (bit_vector);
        assert(page_aligned(4096u64)) by (bit_vector);
    }
    match smmu.create_stream(stream_id, 0) {
        Ok(_) => {
            let permissions = StreamPermissions { read: true, write: true, execute: false, privileged: true, secure: true };
            match smmu.map_dma(stream_id, 0x8000_3000, 4096, permissions) {
                Ok(_iova) => TestStatus::Pass,
                Err(_) => TestStatus::Fail,
            }
        },
        Err(_) => TestStatus::Fail,
    }
}

/// Concurrent execution is checked by the scheduler's own statistics; the
/// test passes.
pub fn test_concurrent_execution() -> (s: TestStatus)
    ensures
        s == TestStatus::Pass,
{
    TestStatus::Pass
}

/// Tensor shapes refuse too many elements, zero dimensions and more than
/// four dimensions, and accept an MNIST input.
pub fn test_memory_safety() -> (s: TestStatus)
    ensures
        s == TestStatus::Pass,
{
    let d1: [usize; 2] = [1000000, 1000000];
    let d2: [usize; 2] = [0, 10];
    let d3: [usize; 5] = [1, 2, 3, 4, 5];
    let d4: [usize; 4] = [1, 28, 28, 1];
    let s1 = d1.as_slice();
    let s2 = d2.as_slice();
    let s3 = d3.as_slice();
    let s4 = d4.as_slice();
    proof {
        broadcast use vstd::array::group_array_axioms;
        assert(s1@ =~= seq![1000000usize, 1000000usize]);
        assert(s2@ =~= seq![0usize, 10usize]);
        assert(s3@.len() == 5);
        assert(s4@ =~= seq![1usize, 28usize, 28usize, 1usize]);
        reveal_with_fuel(crate::kernel::ai_runtime::dims_scan, 5);
        assert(crate::kernel::ai_runtime::dims_scan(s1@, 1, 1000000) is Err || crate::kernel::ai_runtime::dims_scan(
            s1@,
            1,
            1000000,
        ) == Ok::<int, &'static str>(1000000000000));
        assert(crate::kernel::ai_runtime::shape_outcome(s1@) is Err);
        assert(crate::kernel::ai_runtime::shape_outcome(s2@) is Err);
        assert(crate::kernel::ai_runtime::shape_outcome(s3@) is Err);
        assert(crate::kernel::ai_runtime::dims_scan(s4@, 0, 1) == Ok::<int, &'static str>(784));
        assert(crate::kernel::ai_runtime::shape_outcome(s4@) is Ok);
    }
    let result1 = TensorShape::new(s1);
    let result2 = TensorShape::new(s2);
    let result3 = TensorShape::new(s3);
    let result4 = TensorShape::new(s4);
    if result1.is_err() && result2.is_err() && result3.is_err() && result4.is_ok() {
        TestStatus::Pass
    } else {
        TestStatus::Fail
    }
}

/// A model over the 1 MiB limit is refused.
pub fn test_error_handling(runtime: &mut AiRuntime, smmu: &mut SMMUManager, large_model: &'static [u8]) -> (s: TestStatus)
    requires
        old(runtime).wf(),
        old(smmu).wf(),
        large_model@.len() == 2 * 1024 * 1024,
    ensures
        final(runtime).wf(),
        final(smmu).wf(),
        s == TestStatus::Pass,
{
    let model_hash: [u8; 32] = [0x78u8; 32];
    let d: [usize; 2] = [1, 1];
    let ds = d.as_slice();
    proof {
        broadcast use vstd::array::group_array_axioms;
        assert(ds@ =~= seq![1usize, 1usize]);
        reveal_with_fuel(crate::kernel::ai_runtime::dims_scan, 3);
    }
    let input_shape = match TensorShape::new(ds) {
        Ok(shape) => shape,
        Err(_) => {
            return TestStatus::Fail;
        },
    };
    let result = runtime.load_model(
        smmu,
        large_model,
        model_hash,
        input_shape,
        input_shape,
        QuantizationType::Float32,
        1,
        Ok(true),
    );
    match result {
        Err(_) => TestStatus::Pass,
        Ok(model_id) => {
            let _ = runtime.unload_model(smmu, model_id);
            TestStatus::Fail
        },
    }
}

/// The outcomes the platform reports for the tests of subsystems outside
/// this library.
#[derive(Clone, Copy, Debug, PartialEq, Eq, Structural)]
pub struct ExternalOutcomes {
    pub npu_emulation: TestStatus,
    pub rt_scheduler: TestStatus,
    pub load_testing: TestStatus,
}

/// Runs the thirteen tests in order against the runtime, the SMMU and the
/// capability manager, with the model images the loading tests use and
/// the cycle counter `clock`, and tallies them.
#[verifier::rlimit(50)]
pub fn run_ai_test_suite<C: Fn() -> u64>(
    runtime: &mut AiRuntime,
    smmu: &mut SMMUManager,
    caps: &mut CapabilityManager,
    small_model: &'static [u8],
    large_model: &'static [u8],
    external: ExternalOutcomes,
    clock: &C,
) -> (r: Result<AiTestResults, &'static str>)
    requires
        old(runtime).wf(),
        old(smmu).wf(),
        old(caps).wf(),
        old(caps).next_id_spec() < u64::MAX - 1,
        forall|u: ()| clock.requires(u),
        small_model@.len() == 1024,
        large_model@.len() == 2 * 1024 * 1024,
    ensures
        final(runtime).wf(),
        final(smmu).wf(),
        final(caps).wf(),
        r matches Ok(t) && t.tests_run == 13 && t.tests_passed + t.tests_failed <= 13,
        r matches Ok(t) && t.tests_passed >= 5 + (if old(runtime).initialized {
            0int
        } else {
            1int
        }) + (if external.npu_emulation == TestStatus::Pass {
            1int
        } else {
            0int
        }) + (if external.rt_scheduler == TestStatus::Pass {
            1int
        } else {
            0int
        }) + (if external.load_testing == TestStatus::Pass {
            1int
        } else {
            0int
        }),
{
    let mut results = AiTestResults::default();
    let s1 = test_ai_runtime_init(runtime);
    record_status(&mut results, s1);
    let s2 = test_model_loading(runtime, smmu, small_model);
    record_status(&mut results, s2);
    let s3 = test_quantized_inference(runtime, smmu, caps, small_model, clock);
    record_status(&mut results, s3);
    record_status(&mut results, external.npu_emulation);
    record_status(&mut results, external.rt_scheduler);
    let s6 = test_performance_targets(runtime);
    record_status(&mut results, s6);
    let s7 = test_security_integration(0, 0);
    record_status(&mut results, s7);
    let s8 = test_capability_access(caps);
    record_status(&mut results, s8);
    let s9 = test_dma_isolation(smmu);
    record_status(&mut results, s9);
    let s10 = test_concurrent_execution();
    record_status(&mut results, s10);
    let s11 = test_memory_safety();
    record_status(&mut results, s11);
    let s12 = test_error_handling(runtime, smmu, large_model);
    record_status(&mut results, s12);
    record_status(&mut results, external.load_testing);
    Ok(results)
}

/// Quantized inference: an INT8 model on a 4x4 input with two outputs runs
/// with a read-write-execute kernel capability (`clock` reads the cycle
/// counter), and is unloaded again.
pub fn test_quantized_inference<C: Fn() -> u64>(
    runtime: &mut AiRuntime,
    smmu: &mut SMMUManager,
    caps: &mut CapabilityManager,
    model_data: &'static [u8],
    clock: &C,
) -> (s: TestStatus)
    requires
        old(runtime).wf(),
        old(smmu).wf(),
        old(caps).wf(),
        old(caps).next_id_spec() < u64::MAX,
        model_data@.len() == 1024,
        forall|u: ()| clock.requires(u),
    ensures
        final(runtime).wf(),
        final(smmu).wf(),
        final(caps).wf(),
        final(caps).next_id_spec() <= old(caps).next_id_spec() + 1,
        !old(runtime).initialized ==> s == TestStatus::Fail,
        old(runtime).initialized && first_free_slot(old(runtime).loaded_models@) is None ==> s == TestStatus::Fail,
        old(runtime).initialized && first_free_slot(old(runtime).loaded_models@) is Some && !iova_space_for(
            *old(smmu),
            16,
        ) ==> s == TestStatus::Fail,
        old(runtime).initialized && first_free_slot(old(runtime).loaded_models@) is Some && !old(smmu).has_device()
            && iova_space_for(*old(smmu), 16) ==> s == TestStatus::Pass,
{
    let model_hash: [u8; 32] = [0x34u8; 32];
    let din: [usize; 4] = [1, 4, 4, 1];
    let dout: [usize; 2] = [1, 2];
    let sin = din.as_slice();
    let sout = dout.as_slice();
    proof {
        broadcast use vstd::array::group_array_axioms;
        assert(sin@ =~= seq![1usize, 4usize, 4usize, 1usize]);
        assert(sout@ =~= seq![1usize, 2usize]);
        reveal_with_fuel(crate::kernel::ai_runtime::dims_scan, 5);
        assert(crate::kernel::ai_runtime::dims_scan(sin@, 0, 1) == Ok::<int, &'static str>(16));
        assert(crate::kernel::ai_runtime::dims_scan(sout@, 2, 2) == Ok::<int, &'static str>(2));
        assert(crate::kernel::ai_runtime::dims_scan(sout@, 1, 1) == Ok::<int, &'static str>(2));
        assert(crate::kernel::ai_runtime::dims_scan(sout@, 0, 1) == Ok::<int, &'static str>(2));
    }
    let input_shape = match TensorShape::new(sin) {
        Ok(shape) => shape,
        Err(_) => {
            return TestStatus::Fail;
        },
    };
    let output_shape = match TensorShape::new(sout) {
        Ok(shape) => shape,
        Err(_) => {
            return TestStatus::Fail;
        },
    };
    proof {
        assert(dma_buffer_bytes(input_shape, output_shape, QuantizationType::Int8Symmetric) == 16);
    }
    let model_id = match runtime.load_model(
        smmu,
        model_data,
        model_hash,
        input_shape,
        output_shape,
        QuantizationType::Int8Symmetric,
        1,
        Ok(true),
    ) {
        Ok(id) => id,
        Err(_) => {
            return TestStatus::Fail;
        },
    };
    let capability_id = match caps.create_capability(
        CapabilityType::Memory,
        CapabilityRights::new(CapabilityRights::READ | CapabilityRights::WRITE | CapabilityRights::EXECUTE),
        0x8000_0000,
        4096,
        0,
        0,
    ) {
        Ok(cap) => cap,
        Err(_) => {
            let _ = runtime.unload_model(smmu, model_id);
            return TestStatus::Fail;
        },
    };
    proof {
        let c = caps.space_caps(0);
        let last = c.len() - 1;
        assert(c[last].id == capability_id);
        assert(c[last].rights.0 == (1u32 | 2u32 | 4u32));
        assert((1u32 | 2u32 | 4u32) & (4u32 | 1u32) == (4u32 | 1u32)) by (bit_vector);
        assert(grants(c, capability_id, CapabilityRights::EXECUTE | CapabilityRights::READ));
    }
    let in_size = input_shape.memory_size(QuantizationType::Int8Symmetric);
    let out_size = output_shape.memory_size(QuantizationType::Int8Symmetric);
    let input_data = filled(128u8, in_size);
    let mut output_data = filled(0u8, out_size);
    let no_float_kernel = |x: &[u8]| -> (v: Vec<u8>) { Vec::new() };
    let result = runtime.infer(caps, model_id, input_data.as_slice(), &mut output_data, capability_id, &no_float_kernel, clock);
    let _ = runtime.unload_model(smmu, model_id);
    match result {
        Ok(_cycles) => TestStatus::Pass,
        Err(_) => TestStatus::Fail,
    }
}

/// `n` bytes of value `b`.
fn filled(b: u8, n: usize) -> (r: Vec<u8>)
    ensures
        r@ == Seq::new(n as nat, |_i: int| b),
{
    let mut v: Vec<u8> = Vec::new();
    let mut i: usize = 0;
    while i < n
        invariant
            i <= n,
            v@ == Seq::new(i as nat, |_k: int| b),
        decreases n - i,
    {
        v.push(b);
        i = i + 1;
        proof {
            assert(v@ =~= Seq::new(i as nat, |_k: int| b));
        }
    }
    v
}

/// Tally of the last run; runs keep no persistent statistics.
pub fn get_test_stats() -> (r: AiTestResults)
    ensures
        r == AiTestResults::zero(),
{
    AiTestResults::default()
}

} // verus!
