//! NEON SIMD capabilities of the M1 and the FP16 support check. The
//! floating-point tensor kernels run in the platform layer.

use vstd::prelude::*;

verus! {

/// FP16 vector operations for Neural Engine preprocessing.
#[derive(Clone, Copy, Debug, PartialEq, Eq, Structural)]
pub struct NeonFp16Ops;

/// NEON-optimized tensor operations.
#[derive(Clone, Copy, Debug, PartialEq, Eq, Structural)]
pub struct NeonTensorOps;

/// SIMD capability information.
#[derive(Clone, Copy, Debug, PartialEq, Eq, Structural)]
pub struct SIMDInfo {
    pub vector_width_bits: u32,
    pub fp16_elements_per_vector: u32,
    pub fp32_elements_per_vector: u32,
    pub supports_fma: bool,
    pub supports_fp16: bool,
    pub max_throughput_gflops: u32,
}

/// Bytes in a NEON vector.
pub const NEON_VECTOR_SIZE: usize = 16;

impl NeonTensorOps {
    /// NEON on the M1: 128-bit vectors (eight FP16 or four FP32 lanes),
    /// fused multiply-add, FP16, about 64 GFLOPS.
    pub fn get_simd_info() -> (r: SIMDInfo)
        ensures
            r == (SIMDInfo {
                vector_width_bits: 128,
                fp16_elements_per_vector: 8,
                fp32_elements_per_vector: 4,
                supports_fma: true,
                supports_fp16: true,
                max_throughput_gflops: 64,
            }),
    {
        SIMDInfo {
            vector_width_bits: 128,
            fp16_elements_per_vector: 8,
            fp32_elements_per_vector: 4,
            supports_fma: true,
            supports_fp16: true,
            max_throughput_gflops: 64,
        }
    }
}

/// The FP field (bits 19:16) of `ID_AA64PFR0_EL1`.
pub open spec fn fp_field(id_aa64pfr0: u64) -> u64 {
    (id_aa64pfr0 >> 16u64) & 0xF
}

/// NEON FP16 is usable when `ID_AA64PFR0_EL1` (`id_aa64pfr0`) reports at
/// least half-precision support in its FP field.
pub fn init(id_aa64pfr0: u64) -> (r: Result<(), &'static str>)
    ensures
        fp_field(id_aa64pfr0) < 1 ==> r == Err::<(), &'static str>("FP16 NEON support not available"),
        fp_field(id_aa64pfr0) >= 1 ==> r == Ok::<(), &'static str>(()),
{
    let fp16_support = (id_aa64pfr0 >> 16u64) & 0xF;
    if fp16_support < 1 {
        return Err("FP16 NEON support not available");
    }
    Ok(())
}

} // verus!
