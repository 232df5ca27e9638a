pub mod host_memory;
pub mod iommu;
pub mod predictive_power;
pub mod smp;
pub mod topology;
