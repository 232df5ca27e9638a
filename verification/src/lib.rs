//! Verified core of the SIS kernel: capability management, DMA address
//! allocation, page bitmaps, behavioural authentication and the AI workload
//! helpers, each stated against a mathematical model.

pub mod arch;
pub mod kernel;
