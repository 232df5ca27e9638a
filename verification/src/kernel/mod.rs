pub mod affinity;
pub mod ai;
pub mod ai_bft;
pub mod ai_capability_bft;
pub mod ai_memory_safety;
pub mod ai_migration;
pub mod ai_runtime;
pub mod ai_syscalls;
pub mod ai_test;
pub mod auth;
pub mod boot_recovery;
pub mod capabilities;
pub mod keyed;
pub mod cognitive_runtime;
