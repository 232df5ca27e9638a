pub mod atomic_bitmap;
pub mod smmu;
pub mod m1_hardware_validator;
pub mod trustzone;
pub mod pmu;
pub mod cpu;
pub mod smp;
pub mod io;
pub mod neon_simd;
