//! Architecture-aware model registry: each model is kept in several formats,
//! one per architecture and runtime, and the fastest format for an
//! architecture is picked.

use vstd::prelude::*;
use crate::kernel::ai::WorkloadType;
use crate::kernel::keyed::{keys_unique, table_map, lemma_table_lookup, lemma_table_absent, lemma_table_update, lemma_table_push};

verus! {

/// Target architecture of a model format.
#[derive(Clone, Copy, Debug, PartialEq, Eq, Structural)]
pub enum ArchType {
    X86_64,
    AArch64,
}

/// Runtime format of a model.
#[derive(Clone, Copy, Debug, PartialEq, Eq, Structural)]
pub enum FormatType {
    ONNX,
    CoreML,
    TensorRT,
    TensorFlowLite,
}

/// Measured performance of a format.
#[derive(Clone, Copy, Debug, PartialEq, Eq, Structural)]
pub struct PerformanceMetrics {
    pub latency_us: u64,
    pub throughput_ops_per_sec: u64,
    pub memory_usage_mb: u32,
}

/// One format of a model.
#[derive(Clone, Debug)]
pub struct ModelFormat {
    pub arch: ArchType,
    pub format_type: FormatType,
    pub file_path: String,
    pub performance_metrics: PerformanceMetrics,
}

/// A registered model and its formats.
#[derive(Clone, Debug)]
pub struct ModelEntry {
    pub model_id: u32,
    pub name: String,
    pub formats: Vec<ModelFormat>,
}

/// Models by identifier.
#[derive(Debug)]
pub struct ModelRegistry {
    models: Vec<(u32, ModelEntry)>,
}

/// Format `k` of `formats` is the first of the fastest for `arch`.
pub open spec fn optimal_at(formats: Seq<ModelFormat>, arch: ArchType, k: int) -> bool {
    &&& 0 <= k < formats.len()
    &&& formats[k].arch == arch
    &&& forall|j: int|
        0 <= j < formats.len() && #[trigger] formats[j].arch == arch ==> formats[k].performance_metrics.latency_us
            <= formats[j].performance_metrics.latency_us
    &&& forall|j: int|
        0 <= j < k && #[trigger] formats[j].arch == arch ==> formats[k].performance_metrics.latency_us
            < formats[j].performance_metrics.latency_us
}

impl ModelRegistry {
    /// The registry as a map from model identifier to entry.
    pub closed spec fn view(&self) -> Map<u32, ModelEntry> {
        table_map(self.models@)
    }

    pub closed spec fn wf(&self) -> bool {
        keys_unique(self.models@)
    }

    /// An empty registry.
    pub fn new() -> (r: Self)
        ensures
            r.wf(),
            r@ == Map::<u32, ModelEntry>::empty(),
    {
        ModelRegistry { models: Vec::new() }
    }

    fn find(&self, model_id: u32) -> (r: Option<usize>)
        requires
            self.wf(),
        ensures
            r is None ==> !self@.contains_key(model_id) && forall|k: int|
                0 <= k < self.models@.len() ==> (#[trigger] self.models@[k]).0 != model_id,
            r matches Some(i) ==> i < self.models@.len() && self.models@[i as int].0 == model_id
                && self@.contains_key(model_id) && self@[model_id] == self.models@[i as int].1,
    {
        let mut i: usize = 0;
        while i < self.models.len()
            invariant
                self.wf(),
                i <= self.models@.len(),
                forall|k: int| 0 <= k < i ==> (#[trigger] self.models@[k]).0 != model_id,
            decreases self.models@.len() - i,
        {
            if self.models[i].0 == model_id {
                proof {
                    lemma_table_lookup(self.models@, i as int);
                }
                return Some(i);
            }
            i = i + 1;
        }
        proof {
            lemma_table_absent(self.models@, model_id);
        }
        None
    }

    /// Registers `entry` under its identifier, replacing an entry with the
    /// same identifier.
    pub fn register_model(&mut self, entry: ModelEntry) -> (r: Result<(), &'static str>)
        requires
            old(self).wf(),
        ensures
            r is Ok,
            final(self).wf(),
            final(self)@ == old(self)@.insert(entry.model_id, entry),
    {
        let id = entry.model_id;
        match self.find(id) {
            Some(i) => {
                proof {
                    lemma_table_update(self.models@, i as int, entry);
                }
                self.models.set(i, (id, entry));
            },
            None => {
                proof {
                    lemma_table_push(self.models@, id, entry);
                }
                self.models.push((id, entry));
            },
        }
        Ok(())
    }

    /// The format of model `model_id` for `arch` with the lowest latency
    /// (the first of them on a tie); none when the model is unknown or has
    /// no format for `arch`.
    pub fn get_optimal_format(&self, model_id: u32, arch: ArchType, _workload: WorkloadType) -> (r: Option<
        &ModelFormat,
    >)
        requires
            self.wf(),
        ensures
            !self@.contains_key(model_id) ==> r is None,
            self@.contains_key(model_id) ==> match r {
                None => forall|j: int|
                    0 <= j < self@[model_id].formats@.len() ==> (#[trigger] self@[model_id].formats@[j]).arch != arch,
                Some(f) => exists|k: int|
                    optimal_at(self@[model_id].formats@, arch, k) && *f == #[trigger] self@[model_id].formats@[k],
            },
    {
        let i = match self.find(model_id) {
            Some(i) => i,
            None => {
                return None;
            },
        };
        let formats = &self.models[i].1.formats;
        let mut best: Option<usize> = None;
        let mut k: usize = 0;
        while k < formats.len()
            invariant
                k <= formats@.len(),
                formats@ == self@[model_id].formats@,
                best is None ==> forall|j: int| 0 <= j < k ==> (#[trigger] formats@[j]).arch != arch,
                best matches Some(b) ==> b < k && optimal_at(formats@.take(k as int), arch, b as int),
            decreases formats@.len() - k,
        {
            if formats[k].arch == arch {
                match best {
                    None => {
                        best = Some(k);
                    },
                    Some(b) => {
                        if formats[k].performance_metrics.latency_us < formats[b].performance_metrics.latency_us {
                            best = Some(k);
                        }
                    },
                }
            }
            proof {
                let t = formats@.take(k + 1);
                assert forall|j: int| 0 <= j < k implies #[trigger] t[j] == formats@.take(k as int)[j] by {}
                assert(t[k as int] == formats@[k as int]);
            }
            k = k + 1;
        }
        proof {
            assert(formats@.take(k as int) =~= formats@);
        }
        match best {
            Some(b) => Some(&formats[b]),
            None => None,
        }
    }
}

/// Sets up the registry in `slot` unless it exists.
pub fn init(slot: &mut Option<ModelRegistry>) -> (r: Result<(), &'static str>)
    ensures
        r is Ok,
        *old(slot) is None ==> (*final(slot) matches Some(m) && m.wf() && m@ == Map::<u32, ModelEntry>::empty()),
        *old(slot) is Some ==> *final(slot) == *old(slot),
{
    if slot.is_some() {
        return Ok(());
    }
    *slot = Some(ModelRegistry::new());
    Ok(())
}

/// The registry, once set up.
pub fn registry(slot: &mut Option<ModelRegistry>) -> (r: Result<&mut ModelRegistry, &'static str>)
    ensures
        *old(slot) is None <==> r is Err,
        r is Err ==> r == Err::<&mut ModelRegistry, &'static str>("Model registry not initialized"),
        r matches Ok(m) ==> *m == old(slot)->Some_0 && *final(slot) == Some(*final(m)),
{
    match slot {
        Some(m) => Ok(m),
        None => Err("Model registry not initialized"),
    }
}

} // verus!
