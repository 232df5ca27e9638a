//! Neural Engine front end for pattern classification: availability, the
//! engine's capabilities, its latency metrics and the mapping of a
//! classification to an authentication score.
//!
//! Feature extraction and the classifier itself work on floating point and
//! run outside this crate; their classification comes in as a value.

use vstd::prelude::*;
use crate::kernel::auth::AuthScore;

verus! {

/// Neural Engine classification result.
#[derive(Clone, Copy, PartialEq, Eq, Structural, Debug)]
pub struct NeuralClassification {
    pub class_id: u8,
    pub confidence: u8,
    pub latency_us: u32,
}

/// Supported precision formats.
#[derive(Clone, Copy, PartialEq, Eq, Structural, Debug)]
pub struct PrecisionFormats {
    pub fp16: bool,
    pub int8: bool,
    pub quantized: bool,
}

/// Neural Engine capabilities.
#[derive(Clone, Copy, PartialEq, Eq, Structural, Debug)]
pub struct EngineCapabilities {
    pub max_ops_per_sec: u64,
    pub memory_bandwidth: u32,
    pub precision_formats: PrecisionFormats,
}

/// Neural Engine interface.
pub struct NeuralEngine {
    initialized: bool,
    classification_count: u64,
    fast_classifications: u64,
    avg_latency_us: u64,
}

impl NeuralEngine {
    pub closed spec fn ready(&self) -> bool {
        self.initialized
    }

    /// `(classifications, under 40 us, average latency)`.
    pub closed spec fn metrics(&self) -> (u64, u64, u64) {
        (self.classification_count, self.fast_classifications, self.avg_latency_us)
    }

    /// An engine that is not set up.
    pub fn new() -> (r: Self)
        ensures
            !r.ready(),
            r.metrics() == (0u64, 0u64, 0u64),
    {
        NeuralEngine { initialized: false, classification_count: 0, fast_classifications: 0, avg_latency_us: 0 }
    }

    /// Sets the engine up; only ARM64 machines have one.
    pub fn init(&mut self, aarch64: bool) -> (r: Result<(), &'static str>)
        ensures
            r is Ok <==> aarch64,
            aarch64 ==> final(self).ready(),
            !aarch64 ==> final(self).ready() == old(self).ready(),
            final(self).metrics() == old(self).metrics(),
    {
        if aarch64 {
            self.initialized = true;
            Ok(())
        } else {
            Err("Neural Engine only available on ARM64 platforms")
        }
    }

    /// Whether the engine is set up.
    pub fn is_available(&self) -> (r: bool)
        ensures
            r == self.ready(),
    {
        self.initialized
    }

    /// Capabilities: the M1/M2 Neural Engine on ARM64, none elsewhere.
    pub fn get_capabilities(&self, aarch64: bool) -> (r: EngineCapabilities)
        ensures
            aarch64 ==> r == (EngineCapabilities {
                max_ops_per_sec: 15_800_000_000,
                memory_bandwidth: 68,
                precision_formats: PrecisionFormats { fp16: true, int8: true, quantized: true },
            }),
            !aarch64 ==> r == (EngineCapabilities {
                max_ops_per_sec: 0,
                memory_bandwidth: 0,
                precision_formats: PrecisionFormats { fp16: false, int8: false, quantized: false },
            }),
    {
        if aarch64 {
            EngineCapabilities {
                max_ops_per_sec: 15_800_000_000,
                memory_bandwidth: 68,
                precision_formats: PrecisionFormats { fp16: true, int8: true, quantized: true },
            }
        } else {
            EngineCapabilities {
                max_ops_per_sec: 0,
                memory_bandwidth: 0,
                precision_formats: PrecisionFormats { fp16: false, int8: false, quantized: false },
            }
        }
    }

    /// Records a classification that took `latency_us`: counted, counted as
    /// fast under 40 us, and folded into the average (nine parts old, one
    /// part new).
    pub fn update_metrics(&mut self, latency_us: u32)
        requires
            old(self).metrics().2 * 9 + latency_us <= u64::MAX,
        ensures
            final(self).ready() == old(self).ready(),
            final(self).metrics().0 == old(self).metrics().0.wrapping_add(1),
            final(self).metrics().1 == (if latency_us < 40 {
                old(self).metrics().1.wrapping_add(1)
            } else {
                old(self).metrics().1
            }),
            final(self).metrics().2 == (old(self).metrics().2 * 9 + latency_us) / 10,
    {
        self.classification_count = self.classification_count.wrapping_add(1);
        if latency_us < 40 {
            self.fast_classifications = self.fast_classifications.wrapping_add(1);
        }
        self.avg_latency_us = (self.avg_latency_us * 9 + latency_us as u64) / 10;
    }
}

/// Authentication score for a classification: class 1 (the user) maps to
/// 10..=100, class 2 (suspicious) to 20..=60, anything else to 0..=30.
pub open spec fn score_for(c: NeuralClassification) -> u8 {
    if c.class_id == 1 {
        let v = c.confidence * 90 / 100 + 10;
        (if v < 100 {
            v
        } else {
            100
        }) as u8
    } else if c.class_id == 2 {
        let v = c.confidence * 40 / 100 + 20;
        (if v < 60 {
            v
        } else {
            60
        }) as u8
    } else {
        let v = c.confidence * 30 / 100;
        (if v < 30 {
            v
        } else {
            30
        }) as u8
    }
}

/// The confidence arithmetic of a class stays within a byte.
pub open spec fn score_fits(c: NeuralClassification) -> bool {
    if c.class_id == 1 {
        c.confidence * 90 <= 255
    } else if c.class_id == 2 {
        c.confidence * 40 <= 255
    } else {
        c.confidence * 30 <= 255
    }
}

/// Authentication score from the engine's classification of the events; an
/// engine that is not set up classifies nothing.
pub fn classify_for_auth(engine: &NeuralEngine, classification: NeuralClassification) -> (r: Result<AuthScore, &'static str>)
    requires
        score_fits(classification),
    ensures
        r is Err <==> !engine.ready(),
        r matches Ok(s) ==> s.0 == score_for(classification),
{
    if !engine.is_available() {
        return Err("Neural Engine not available");
    }
    let c = classification.confidence;
    let score: u8 = if classification.class_id == 1 {
        let v = c * 90 / 100 + 10;
        if v < 100 {
            v
        } else {
            100
        }
    } else if classification.class_id == 2 {
        let v = c * 40 / 100 + 20;
        if v < 60 {
            v
        } else {
            60
        }
    } else {
        let v = c * 30 / 100;
        if v < 30 {
            v
        } else {
            30
        }
    };
    Ok(AuthScore(score))
}

/// Sets the engine up.
pub fn init_neural_engine(engine: &mut NeuralEngine, aarch64: bool) -> (r: Result<(), &'static str>)
    ensures
        r is Ok <==> aarch64,
        aarch64 ==> final(engine).ready(),
{
    engine.init(aarch64)
}

} // verus!
