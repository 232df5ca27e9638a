//! Cycle model of AI inference on the Neural Engine pipeline (fetch,
//! decode, matrix, activation) and on a SIMD CPU fallback.
//!
//! Timer readings that drive the model's variations come in as arguments;
//! the floating-point figures (throughput, cache hit rate) are left to the
//! caller.

use vstd::prelude::*;
use crate::kernel::ai::{CognitivePriority, WorkloadType};

verus! {

/// Matrix-stage cycles for a tensor: one op per 16 elements, a quarter of
/// the ops from 10 ops on, half from 1000 on, clamped to `1..=100`.
pub open spec fn matrix_cycles_spec(tensor_size: usize) -> u32 {
    let ops = tensor_size / 16;
    let base: int = if ops < 10 {
        ops as int
    } else if ops < 1000 {
        (ops / 4) as int
    } else {
        (ops / 2) as int
    };
    if base < 1 {
        1
    } else if base > 100 {
        100
    } else {
        base as u32
    }
}

/// Matrix cycles after the workload's scaling.
pub open spec fn workload_scaled(base: u32, workload: WorkloadType) -> u32 {
    match workload {
        WorkloadType::RealTimeInference => ((base * 95) / 100) as u32,
        WorkloadType::Background => ((base * 110) / 100) as u32,
        WorkloadType::Training => ((base * 150) / 100) as u32,
        _ => base,
    }
}

/// Cycles after thermal (+20 %) and contention (+10 %) slowdowns.
pub open spec fn with_variations(base: u32, throttling: bool, contention: bool) -> u32 {
    let thermal: int = if throttling {
        120
    } else {
        100
    };
    let cont: int = if contention {
        110
    } else {
        100
    };
    ((base * thermal * cont) / 10000) as u32
}

/// Neural Engine power: 50 mW idle plus a tenth of the cycles, at most 200.
pub open spec fn ane_power_spec(cycles: u32) -> u32 {
    let dynamic = cycles / 10;
    (50 + if dynamic < 200 {
        dynamic
    } else {
        200
    }) as u32
}

/// Neural Engine pipeline model (M1 characteristics).
pub struct AnePipelineModel {
    fetch_cycles: u32,
    decode_cycles: u32,
    activation_cycles: u32,
    base_frequency: u64,
    total_inferences: u64,
    total_cycles: u64,
}

/// Detailed pipeline stage timing breakdown.
#[derive(Clone, Copy, Debug)]
pub struct CyclesBreakdown {
    pub fetch_cycles: u32,
    pub decode_cycles: u32,
    pub matrix_cycles: u32,
    pub activation_cycles: u32,
    pub total_cycles: u32,
}

/// Pipeline performance statistics.
#[derive(Clone, Copy, Debug)]
pub struct PipelineStats {
    pub total_inferences: u64,
    pub total_cycles: u64,
    pub average_cycles: u64,
    pub average_latency_us: u64,
}

/// Statistics over `inferences` runs taking `cycles` cycles at `freq` Hz.
pub open spec fn stats_of(inferences: u64, cycles: u64, freq: u64) -> PipelineStats {
    PipelineStats {
        total_inferences: inferences,
        total_cycles: cycles,
        average_cycles: if inferences > 0 {
            cycles / inferences
        } else {
            0
        },
        average_latency_us: if inferences > 0 {
            (((cycles * 1_000_000) / freq as int) / inferences as int) as u64
        } else {
            0
        },
    }
}

fn pipeline_stats(inferences: u64, cycles: u64, freq: u64) -> (r: PipelineStats)
    requires
        freq > 0,
        cycles * 1_000_000 <= u64::MAX,
    ensures
        r == stats_of(inferences, cycles, freq),
{
    PipelineStats {
        total_inferences: inferences,
        total_cycles: cycles,
        average_cycles: if inferences > 0 {
            cycles / inferences
        } else {
            0
        },
        average_latency_us: if inferences > 0 {
            ((cycles * 1_000_000) / freq) / inferences
        } else {
            0
        },
    }
}

impl AnePipelineModel {
    pub closed spec fn inferences(&self) -> u64 {
        self.total_inferences
    }

    pub closed spec fn cycles(&self) -> u64 {
        self.total_cycles
    }

    pub closed spec fn frequency(&self) -> u64 {
        self.base_frequency
    }

    /// Stage constants of the model.
    pub closed spec fn stages(&self) -> (u32, u32, u32) {
        (self.fetch_cycles, self.decode_cycles, self.activation_cycles)
    }

    /// Fetch 15, decode 5, activation 3 cycles at 3 GHz.
    pub fn new() -> (r: Self)
        ensures
            r.stages() == (15u32, 5u32, 3u32),
            r.frequency() == 3_000_000_000,
            r.inferences() == 0,
            r.cycles() == 0,
    {
        AnePipelineModel {
            fetch_cycles: 15,
            decode_cycles: 5,
            activation_cycles: 3,
            base_frequency: 3_000_000_000,
            total_inferences: 0,
            total_cycles: 0,
        }
    }

    /// Matrix-stage cycles for a tensor of `tensor_size` elements.
    pub fn matrix_cycles_for_size(tensor_size: usize) -> (r: u32)
        ensures
            r == matrix_cycles_spec(tensor_size),
            1 <= r <= 100,
    {
        let ops = tensor_size / 16;
        let base_cycles: usize = if ops < 10 {
            ops
        } else if ops < 1000 {
            ops / 4
        } else {
            ops / 2
        };
        if base_cycles < 1 {
            1
        } else if base_cycles > 100 {
            100
        } else {
            base_cycles as u32
        }
    }

    /// Extra fetch cycles: one per KiB up to ten, plus the timer reading
    /// modulo five.
    pub fn dma_variation(tensor_size: usize, counter: u64) -> (r: u32)
        ensures
            r == (if tensor_size / 1024 < 10 {
                tensor_size / 1024
            } else {
                10
            }) + counter % 5,
    {
        let kib = tensor_size / 1024;
        let size_factor: u32 = if kib < 10 {
            kib as u32
        } else {
            10
        };
        size_factor + (counter % 5) as u32
    }

    /// Matrix cycles scaled by workload: real-time 95 %, background 110 %,
    /// training 150 %.
    pub fn apply_workload_scaling(base_cycles: u32, workload: WorkloadType) -> (r: u32)
        requires
            base_cycles * 150 <= u32::MAX,
        ensures
            r == workload_scaled(base_cycles, workload),
    {
        match workload {
            WorkloadType::RealTimeInference => (base_cycles * 95) / 100,
            WorkloadType::Interactive => base_cycles,
            WorkloadType::Background => (base_cycles * 110) / 100,
            WorkloadType::Training => (base_cycles * 150) / 100,
            WorkloadType::Preprocessing | WorkloadType::Serving | WorkloadType::DataProcessing => {
                base_cycles
            },
        }
    }

    /// Cycles after the thermal and contention slowdowns.
    pub fn apply_system_variations(base_cycles: u32, throttling: bool, contention: bool) -> (r: u32)
        requires
            base_cycles * 13200 <= u32::MAX,
        ensures
            r == with_variations(base_cycles, throttling, contention),
    {
        let thermal_factor: u32 = if throttling {
            120
        } else {
            100
        };
        let contention_factor: u32 = if contention {
            110
        } else {
            100
        };
        (base_cycles * thermal_factor * contention_factor) / 10000
    }

    /// The engine runs hot once more than 80 of every 100 inferences are
    /// recent.
    pub fn is_thermal_throttling(&self) -> (r: bool)
        ensures
            r == (self.inferences() % 100 > 80),
    {
        self.total_inferences % 100 > 80
    }

    /// Memory bandwidth is saturated when the timer reading is a multiple
    /// of 20.
    pub fn has_memory_contention(counter: u64) -> (r: bool)
        ensures
            r == (counter % 20 == 0),
    {
        counter % 20 == 0
    }

    /// Power estimate for a run of `cycles` cycles.
    pub fn estimate_power(cycles: u32) -> (r: u32)
        ensures
            r == ane_power_spec(cycles),
            50 <= r <= 250,
    {
        let dynamic_power_mw = cycles / 10;
        50 + if dynamic_power_mw < 200 {
            dynamic_power_mw
        } else {
            200
        }
    }

    /// Runs the cycle model of one inference. `dma_counter` and
    /// `contention_counter` are the timer readings taken for the DMA
    /// variation and the contention check.
    pub fn simulate_cycles(
        &mut self,
        tensor_size: usize,
        workload_type: WorkloadType,
        dma_counter: u64,
        contention_counter: u64,
    ) -> (r: CyclesBreakdown)
        requires
            old(self).stages() == (15u32, 5u32, 3u32),
        ensures
            final(self).stages() == old(self).stages(),
            final(self).frequency() == old(self).frequency(),
            r.fetch_cycles == 15 + (if tensor_size / 1024 < 10 {
                tensor_size / 1024
            } else {
                10
            }) + dma_counter % 5,
            r.decode_cycles == 5,
            r.matrix_cycles == workload_scaled(matrix_cycles_spec(tensor_size), workload_type),
            r.activation_cycles == 3,
            r.total_cycles == with_variations(
                (r.fetch_cycles + r.decode_cycles + r.matrix_cycles + r.activation_cycles) as u32,
                old(self).inferences() % 100 > 80,
                contention_counter % 20 == 0,
            ),
            final(self).inferences() == old(self).inferences().wrapping_add(1),
            final(self).cycles() == old(self).cycles().wrapping_add(r.total_cycles as u64),
    {
        let fetch_cycles = self.fetch_cycles + Self::dma_variation(tensor_size, dma_counter);
        let decode_cycles = self.decode_cycles;
        let matrix = Self::matrix_cycles_for_size(tensor_size);
        let matrix_cycles = Self::apply_workload_scaling(matrix, workload_type);
        let activation_cycles = self.activation_cycles;
        let total_cycles = fetch_cycles + decode_cycles + matrix_cycles + activation_cycles;
        let throttling = self.is_thermal_throttling();
        let contention = Self::has_memory_contention(contention_counter);
        let adjusted_cycles = Self::apply_system_variations(total_cycles, throttling, contention);
        self.total_inferences = self.total_inferences.wrapping_add(1);
        self.total_cycles = self.total_cycles.wrapping_add(adjusted_cycles as u64);
        CyclesBreakdown {
            fetch_cycles,
            decode_cycles,
            matrix_cycles,
            activation_cycles,
            total_cycles: adjusted_cycles,
        }
    }

    /// Latency in microseconds of a run of `cycles` cycles.
    pub fn latency_us(&self, cycles: u32) -> (r: u32)
        requires
            self.frequency() == 3_000_000_000,
        ensures
            r as int == (cycles * 1_000_000) / (self.frequency() as int),
    {
        ((cycles as u64 * 1_000_000) / self.base_frequency) as u32
    }

    /// Performance statistics.
    pub fn get_stats(&self) -> (r: PipelineStats)
        requires
            self.frequency() > 0,
            self.cycles() * 1_000_000 <= u64::MAX,
        ensures
            r == stats_of(self.inferences(), self.cycles(), self.frequency()),
    {
        pipeline_stats(self.total_inferences, self.total_cycles, self.base_frequency)
    }
}

/// SIMD cycles for a tensor: one 6-cycle operation per 8 elements (rounded
/// up), plus 10 % overhead.
pub open spec fn simd_cycles_spec(tensor_size: usize) -> u32 {
    let ops = (tensor_size + 7) / 8;
    let total = (ops * 6) as u32;
    (total + total / 10) as u32
}

/// x86_64 SIMD pipeline model.
pub struct SimdPipelineModel {
    cpu_frequency: u64,
    simd_width: u32,
    total_inferences: u64,
    total_cycles: u64,
}

impl SimdPipelineModel {
    pub closed spec fn inferences(&self) -> u64 {
        self.total_inferences
    }

    pub closed spec fn cycles(&self) -> u64 {
        self.total_cycles
    }

    pub closed spec fn frequency(&self) -> u64 {
        self.cpu_frequency
    }

    pub closed spec fn width(&self) -> u32 {
        self.simd_width
    }

    /// 2.5 GHz, 256-bit vectors.
    pub fn new() -> (r: Self)
        ensures
            r.frequency() == 2_500_000_000,
            r.width() == 256,
            r.inferences() == 0,
            r.cycles() == 0,
    {
        SimdPipelineModel {
            cpu_frequency: 2_500_000_000,
            simd_width: 256,
            total_inferences: 0,
            total_cycles: 0,
        }
    }

    /// Cycle model of one inference on the CPU: stages take a quarter,
    /// an eighth, three quarters and an eighth of the total.
    pub fn simulate_cycles(&mut self, tensor_size: usize, _workload_type: WorkloadType) -> (r: CyclesBreakdown)
        requires
            old(self).width() == 256,
            tensor_size <= 100_000_000,
        ensures
            final(self).width() == old(self).width(),
            final(self).frequency() == old(self).frequency(),
            r.total_cycles == simd_cycles_spec(tensor_size),
            r.fetch_cycles == r.total_cycles / 4,
            r.decode_cycles == r.total_cycles / 8,
            r.matrix_cycles == (r.total_cycles * 3) / 4,
            r.activation_cycles == r.total_cycles / 8,
            final(self).inferences() == old(self).inferences().wrapping_add(1),
            final(self).cycles() == old(self).cycles().wrapping_add(r.total_cycles as u64),
    {
        let elements_per_simd = (self.simd_width / 32) as usize;
        let simd_operations = (tensor_size + elements_per_simd - 1) / elements_per_simd;
        let total_cycles = (simd_operations * 6) as u32;
        let overhead_cycles = total_cycles / 10;
        let adjusted_cycles = total_cycles + overhead_cycles;
        self.total_inferences = self.total_inferences.wrapping_add(1);
        self.total_cycles = self.total_cycles.wrapping_add(adjusted_cycles as u64);
        CyclesBreakdown {
            fetch_cycles: adjusted_cycles / 4,
            decode_cycles: adjusted_cycles / 8,
            matrix_cycles: (adjusted_cycles * 3) / 4,
            activation_cycles: adjusted_cycles / 8,
            total_cycles: adjusted_cycles,
        }
    }

    /// Power estimate: 2 W plus a milliwatt per thousand cycles.
    pub fn estimate_power(cycles: u32) -> (r: u32)
        ensures
            r == 2000 + cycles / 1000,
    {
        2000 + cycles / 1000
    }

    /// Latency in microseconds of a run of `cycles` cycles.
    pub fn latency_us(&self, cycles: u32) -> (r: u32)
        requires
            self.frequency() == 2_500_000_000,
        ensures
            r as int == (cycles * 1_000_000) / (self.frequency() as int),
    {
        ((cycles as u64 * 1_000_000) / self.cpu_frequency) as u32
    }

    /// Performance statistics.
    pub fn get_stats(&self) -> (r: PipelineStats)
        requires
            self.frequency() > 0,
            self.cycles() * 1_000_000 <= u64::MAX,
        ensures
            r == stats_of(self.inferences(), self.cycles(), self.frequency()),
    {
        pipeline_stats(self.total_inferences, self.total_cycles, self.cpu_frequency)
    }
}

/// Simulator backend.
#[derive(Clone, Copy, PartialEq, Eq, Structural, Debug)]
pub enum SimulatorBackend {
    NeuralEngine,
    SimdFallback,
}

/// Simulation configuration.
#[derive(Clone, Copy, Debug)]
pub struct SimulationConfig {
    pub default_backend: SimulatorBackend,
    pub ane_available: bool,
    pub thermal_modeling: bool,
    pub performance_variation: bool,
    pub random_seed: u64,
}

impl SimulationConfig {
    /// Default configuration for a platform: the Neural Engine is the
    /// default backend and available exactly on aarch64.
    pub fn default_for(aarch64: bool) -> (r: Self)
        ensures
            r.default_backend == (if aarch64 {
                SimulatorBackend::NeuralEngine
            } else {
                SimulatorBackend::SimdFallback
            }),
            r.ane_available == aarch64,
            r.thermal_modeling,
            r.performance_variation,
            r.random_seed == 42,
    {
        SimulationConfig {
            default_backend: if aarch64 {
                SimulatorBackend::NeuralEngine
            } else {
                SimulatorBackend::SimdFallback
            },
            ane_available: aarch64,
            thermal_modeling: true,
            performance_variation: true,
            random_seed: 42,
        }
    }
}

/// Comprehensive simulator statistics.
#[derive(Clone, Copy, Debug)]
pub struct SimulatorStats {
    pub ane_stats: PipelineStats,
    pub simd_stats: PipelineStats,
    pub current_backend: SimulatorBackend,
    pub config: SimulationConfig,
}

/// Backend a task of `priority` runs on: real-time work goes to the Neural
/// Engine when it is available, other work to the current backend.
pub open spec fn backend_for(config: SimulationConfig, current: SimulatorBackend, priority: CognitivePriority) -> SimulatorBackend {
    match priority {
        CognitivePriority::RealTimeInference => if config.ane_available {
            SimulatorBackend::NeuralEngine
        } else {
            SimulatorBackend::SimdFallback
        },
        _ => current,
    }
}

/// Architecture-agnostic simulator over both models.
pub struct NeuralEngineSimulator {
    pub ane_model: AnePipelineModel,
    pub simd_model: SimdPipelineModel,
    pub current_backend: SimulatorBackend,
    pub simulation_config: SimulationConfig,
}

impl NeuralEngineSimulator {
    /// Fresh models; the current backend is the configured default.
    pub fn new(config: SimulationConfig) -> (r: Self)
        ensures
            r.current_backend == config.default_backend,
            r.simulation_config == config,
            r.ane_model.inferences() == 0,
            r.simd_model.inferences() == 0,
            r.ane_model.stages() == (15u32, 5u32, 3u32),
            r.simd_model.width() == 256,
    {
        NeuralEngineSimulator {
            ane_model: AnePipelineModel::new(),
            simd_model: SimdPipelineModel::new(),
            current_backend: config.default_backend,
            simulation_config: config,
        }
    }

    /// Backend for a task of `priority`.
    pub fn select_backend(&self, priority: CognitivePriority) -> (r: SimulatorBackend)
        ensures
            r == backend_for(self.simulation_config, self.current_backend, priority),
    {
        match priority {
            CognitivePriority::RealTimeInference => {
                if self.simulation_config.ane_available {
                    SimulatorBackend::NeuralEngine
                } else {
                    SimulatorBackend::SimdFallback
                }
            },
            _ => self.current_backend,
        }
    }

    /// Runs the cycle model of one inference on the backend chosen for
    /// `priority`; returns the backend and the cycles.
    pub fn simulate_cycles(
        &mut self,
        tensor_size: usize,
        workload_type: WorkloadType,
        priority: CognitivePriority,
        dma_counter: u64,
        contention_counter: u64,
    ) -> (r: (SimulatorBackend, CyclesBreakdown))
        requires
            old(self).ane_model.stages() == (15u32, 5u32, 3u32),
            old(self).simd_model.width() == 256,
            tensor_size <= 100_000_000,
        ensures
            r.0 == backend_for(old(self).simulation_config, old(self).current_backend, priority),
            r.0 == SimulatorBackend::NeuralEngine ==> final(self).ane_model.inferences() == old(self).ane_model.inferences().wrapping_add(1) && final(self).simd_model == old(self).simd_model,
            r.0 == SimulatorBackend::SimdFallback ==> final(self).simd_model.inferences() == old(self).simd_model.inferences().wrapping_add(1) && r.1.total_cycles == simd_cycles_spec(tensor_size),
            final(self).ane_model.stages() == old(self).ane_model.stages(),
            final(self).simd_model.width() == old(self).simd_model.width(),
            final(self).current_backend == old(self).current_backend,
            final(self).simulation_config == old(self).simulation_config,
    {
        let backend = self.select_backend(priority);
        match backend {
            SimulatorBackend::NeuralEngine => {
                let c = self.ane_model.simulate_cycles(
                    tensor_size,
                    workload_type,
                    dma_counter,
                    contention_counter,
                );
                (backend, c)
            },
            SimulatorBackend::SimdFallback => {
                let c = self.simd_model.simulate_cycles(tensor_size, workload_type);
                (backend, c)
            },
        }
    }

    /// Statistics of both models with the current backend and config.
    pub fn get_comprehensive_stats(&self) -> (r: SimulatorStats)
        requires
            self.ane_model.frequency() > 0,
            self.simd_model.frequency() > 0,
            self.ane_model.cycles() * 1_000_000 <= u64::MAX,
            self.simd_model.cycles() * 1_000_000 <= u64::MAX,
        ensures
            r.ane_stats == stats_of(self.ane_model.inferences(), self.ane_model.cycles(), self.ane_model.frequency()),
            r.simd_stats == stats_of(self.simd_model.inferences(), self.simd_model.cycles(), self.simd_model.frequency()),
            r.current_backend == self.current_backend,
            r.config == self.simulation_config,
    {
        SimulatorStats {
            ane_stats: self.ane_model.get_stats(),
            simd_stats: self.simd_model.get_stats(),
            current_backend: self.current_backend,
            config: self.simulation_config,
        }
    }
}

/// Sets up the simulator for a platform; there is nothing that can fail.
pub fn init_neural_simulator(aarch64: bool) -> (r: Result<(), &'static str>)
    ensures
        r is Ok,
{
    let config = SimulationConfig::default_for(aarch64);
    let _simulator = NeuralEngineSimulator::new(config);
    Ok(())
}

} // verus!
