//! Power management for x86_64: battery and thermal classification and the
//! conservative stand-ins that the AI scheduler consults on this platform.

use vstd::prelude::*;
use crate::kernel::ai::{CognitivePriority, WorkloadType};
use crate::kernel::ai::scheduler::ComputeResource;

verus! {

/// Basic power state.
#[derive(Clone, Copy, Debug)]
pub struct PowerState {
    pub freq_mhz: u16,
    pub min_residency_us: u16,
    pub power_mw: u16,
}

/// Power manager for x86_64 (no managed state).
pub struct X86PowerManager;

impl X86PowerManager {
    pub fn new() -> (r: Self) {
        X86PowerManager
    }

    /// Power state update; this platform keeps no P-state policy.
    pub fn update_power_state(&self) {
    }
}

/// Fixed-point Q15 helpers.
pub struct Q15Math;

/// Battery state classification.
#[derive(Clone, Copy, PartialEq, Eq, Debug)]
pub enum BatteryClass {
    Critical,
    Low,
    Medium,
    High,
    Full,
}

impl BatteryClass {
    /// Class of a state-of-charge percentage: below 10 critical, up to 30
    /// low, up to 70 medium, up to 90 high, above that full.
    pub fn from_soc_percent(soc: u8) -> (r: Self)
        ensures
            r == (if soc <= 9 {
                BatteryClass::Critical
            } else if soc <= 30 {
                BatteryClass::Low
            } else if soc <= 70 {
                BatteryClass::Medium
            } else if soc <= 90 {
                BatteryClass::High
            } else {
                BatteryClass::Full
            }),
    {
        if soc <= 9 {
            BatteryClass::Critical
        } else if soc <= 30 {
            BatteryClass::Low
        } else if soc <= 70 {
            BatteryClass::Medium
        } else if soc <= 90 {
            BatteryClass::High
        } else {
            BatteryClass::Full
        }
    }
}

/// A higher state of charge never gives a lower battery class.
pub proof fn lemma_battery_class_monotone(a: u8, b: u8)
    requires
        a <= b,
    ensures
        battery_rank(a) <= battery_rank(b),
{
}

/// Rank of the class of a charge level (0 critical .. 4 full).
pub open spec fn battery_rank(soc: u8) -> int {
    if soc <= 9 {
        0
    } else if soc <= 30 {
        1
    } else if soc <= 70 {
        2
    } else if soc <= 90 {
        3
    } else {
        4
    }
}

/// Thermal state classification.
#[derive(Clone, Copy, PartialEq, Eq, Debug)]
pub enum ThermalClass {
    Cool,
    Warm,
    Hot,
    Critical,
}

/// Race-to-sleep policy.
pub struct RaceToSleep;

impl RaceToSleep {
    /// This platform never races to sleep.
    pub fn should_race(
        workload_type: WorkloadType,
        priority: CognitivePriority,
        battery_class: BatteryClass,
        queue_depth: usize,
    ) -> (r: bool)
        ensures
            !r,
    {
        false
    }
}

/// Power predictor (fixed estimate on this platform).
pub struct PowerPredictor;

impl PowerPredictor {
    pub fn new() -> (r: Self) {
        PowerPredictor
    }

    /// Completion sample; not used by the fixed estimate.
    pub fn on_complete(&self, service_time_q15: i16) {
    }

    /// Arrival sample; not used by the fixed estimate.
    pub fn on_enqueue(&self, interarrival_q15: i16, queue_depth: usize) {
    }

    /// Predicted utilization in Q15: one half.
    pub fn predict_utilization_q15(&self) -> (r: i16)
        ensures
            r == 16384,
    {
        16384
    }
}

/// Per-resource power manager.
pub struct ResourceManager {
    pub predictor: PowerPredictor,
}

impl ResourceManager {
    pub fn new() -> (r: Self) {
        ResourceManager { predictor: PowerPredictor::new() }
    }

    /// Boost request; this platform has no boost control.
    pub fn update_power_state(&self, resource: ComputeResource, should_boost: bool) {
    }
}

/// System power statistics.
#[derive(Clone, Copy, Debug)]
pub struct SystemPowerStats {
    pub current_power_mw: u32,
    pub average_power_mw: u32,
    pub battery_soc_percent: u8,
    pub thermal_state: u8,
    pub frequency_mhz: u32,
    pub uptime_seconds: u64,
}

impl SystemPowerStats {
    /// The conservative figures reported on this platform.
    pub fn default() -> (r: Self)
        ensures
            r.current_power_mw == 2000 && r.average_power_mw == 1800 && r.battery_soc_percent == 75
                && r.thermal_state == 0 && r.frequency_mhz == 2400 && r.uptime_seconds == 0,
    {
        SystemPowerStats {
            current_power_mw: 2000,
            average_power_mw: 1800,
            battery_soc_percent: 75,
            thermal_state: 0,
            frequency_mhz: 2400,
            uptime_seconds: 0,
        }
    }
}

/// Predictive power manager; every resource shares one resource manager.
pub struct PredictivePowerManager {
    resource_manager: ResourceManager,
}

impl PredictivePowerManager {
    pub fn new() -> (r: Self) {
        PredictivePowerManager { resource_manager: ResourceManager::new() }
    }

    /// Prediction update; nothing to update on this platform.
    pub fn update(&self) {
    }

    /// The resource manager for `resource` (shared by all resources).
    pub fn get_resource_manager(&self, resource: ComputeResource) -> (r: &ResourceManager) {
        &self.resource_manager
    }

    /// Current system power statistics.
    pub fn system_stats(&self) -> (r: SystemPowerStats)
        ensures
            r.current_power_mw == 2000 && r.average_power_mw == 1800 && r.battery_soc_percent == 75
                && r.thermal_state == 0 && r.frequency_mhz == 2400 && r.uptime_seconds == 0,
    {
        SystemPowerStats::default()
    }
}

} // verus!
