//! AI workload classification shared by the scheduler, the simulator and
//! the power manager.

pub mod distributed;
pub mod fault_injection;
pub mod hardware_accel;
pub mod memory_pool;
pub mod scheduler;
pub mod simulator;

use vstd::prelude::*;

verus! {

/// Kind of AI workload.
#[derive(Clone, Copy, PartialEq, Eq, Debug)]
pub enum WorkloadType {
    RealTimeInference,
    Interactive,
    Background,
    Training,
    Preprocessing,
    Serving,
    DataProcessing,
}

/// Priority class of a cognitive request.
#[derive(Clone, Copy, PartialEq, Eq, Debug)]
pub enum CognitivePriority {
    RealTimeInference,
    Interactive,
    Background,
    Maintenance,
}

} // verus!
