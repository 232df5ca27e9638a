//! Handlers of the cognitive operations: knowledge graphs, retrieval and
//! registered models, kept in per-kernel registries with running
//! identifiers and an operation counter.
//!
//! The platform pins the request's buffers and reads the cycle counter; the
//! handlers here decide from the request's parameters and the registries.

use vstd::prelude::*;
use crate::kernel::keyed::{keys_unique, table_map, lemma_table_lookup, lemma_table_absent, lemma_table_push, lemma_unique_prefix};

verus! {

/// Models a process may register.
pub const MAX_MODELS_PER_PROCESS: usize = 64;

/// Entities (nodes and edges) a knowledge graph may hold.
pub const MAX_KG_ENTITIES: usize = 1000000;

/// Errors of the cognitive operations.
#[derive(Clone, Copy, Debug, PartialEq, Eq, Structural)]
pub enum CognitiveError {
    /// No such model or knowledge graph.
    NoEnt,
    /// The registry is full.
    NoMem,
}

/// Handle of a registered model.
#[derive(Clone, Copy, Debug, PartialEq, Eq, Structural)]
pub struct ModelHandle {
    pub id: u32,
    pub process_id: u64,
}

/// Handle of a knowledge graph.
#[derive(Clone, Copy, Debug, PartialEq, Eq, Structural)]
pub struct KnowledgeGraphHandle {
    pub id: u32,
    pub process_id: u64,
}

/// Kind of model.
#[derive(Clone, Copy, Debug, PartialEq, Eq, Structural)]
pub enum ModelType {
    LanguageModel,
    VisionModel,
    AudioModel,
    EmbeddingModel,
    ReasoningModel,
    MultiModal,
}

/// Hardware a model needs.
#[derive(Clone, Copy, Debug, PartialEq, Eq, Structural)]
pub struct ModelCapabilities {
    pub requires_npu: bool,
    pub requires_gpu: bool,
    pub can_use_neon: bool,
    pub min_memory_mb: u32,
    pub optimal_batch_size: u32,
}

/// Performance of a model; the accuracy is in percent.
#[derive(Clone, Copy, Debug, PartialEq, Eq, Structural)]
pub struct PerformanceProfile {
    pub avg_inference_us: u32,
    pub peak_throughput_ops: u32,
    pub power_consumption_mw: u32,
    pub accuracy_percent: u8,
}

/// A registered model.
#[derive(Clone, Debug)]
pub struct RegisteredModel {
    pub handle: ModelHandle,
    pub model_type: ModelType,
    pub size_bytes: usize,
    pub input_shape: Vec<usize>,
    pub output_shape: Vec<usize>,
    pub capabilities: ModelCapabilities,
    pub performance_profile: PerformanceProfile,
}

/// Context of one operation.
#[derive(Clone, Copy, Debug, PartialEq, Eq, Structural)]
pub struct OperationContext {
    pub operation_id: u64,
    pub ring_fd: i32,
    pub process_id: u64,
    pub start_time: u64,
    pub deadline_ns: Option<u64>,
}

/// Counts of the registries and operations.
#[derive(Clone, Copy, Debug, PartialEq, Eq, Structural)]
pub struct OperationStats {
    pub registered_models: usize,
    pub knowledge_graphs: usize,
    pub total_operations: u64,
}

/// The registries of models and knowledge graphs, the next identifiers and
/// the operation counter.
#[derive(Debug)]
pub struct OperationRegistries {
    models: Vec<(u32, RegisteredModel)>,
    graphs: Vec<(u32, KnowledgeGraphHandle)>,
    next_model_id: u32,
    next_kg_id: u32,
    operation_counter: u64,
}

impl OperationRegistries {
    pub closed spec fn model_map(&self) -> Map<u32, RegisteredModel> {
        table_map(self.models@)
    }

    pub closed spec fn graph_map(&self) -> Map<u32, KnowledgeGraphHandle> {
        table_map(self.graphs@)
    }

    pub closed spec fn next_model(&self) -> u32 {
        self.next_model_id
    }

    pub closed spec fn next_graph(&self) -> u32 {
        self.next_kg_id
    }

    pub closed spec fn operations(&self) -> u64 {
        self.operation_counter
    }

    pub closed spec fn wf(&self) -> bool {
        &&& keys_unique(self.models@)
        &&& keys_unique(self.graphs@)
    }

    /// Empty registries; identifiers and operations count from one.
    pub fn new() -> (r: Self)
        ensures
            r.wf(),
            r.model_map() == Map::<u32, RegisteredModel>::empty(),
            r.graph_map() == Map::<u32, KnowledgeGraphHandle>::empty(),
            r.next_model() == 1,
            r.next_graph() == 1,
            r.operations() == 1,
    {
        OperationRegistries { models: Vec::new(), graphs: Vec::new(), next_model_id: 1, next_kg_id: 1, operation_counter: 1 }
    }

    /// Context of the next operation of `process_id` on ring `ring_fd`,
    /// started at `start_time`; a real-time request carries its deadline.
    /// The operation counter moves on (modulo 2^64).
    pub fn begin_operation(&mut self, ring_fd: i32, process_id: u64, start_time: u64, deadline_ns: Option<u64>) -> (r:
        OperationContext)
        ensures
            r == (OperationContext { operation_id: old(self).operations(), ring_fd, process_id, start_time, deadline_ns }),
            final(self).operations() == old(self).operations().wrapping_add(1),
            final(self).model_map() == old(self).model_map(),
            final(self).graph_map() == old(self).graph_map(),
            final(self).next_model() == old(self).next_model(),
            final(self).next_graph() == old(self).next_graph(),
            final(self).wf() == old(self).wf(),
    {
        let operation_id = self.operation_counter;
        self.operation_counter = self.operation_counter.wrapping_add(1);
        OperationContext { operation_id, ring_fd, process_id, start_time, deadline_ns }
    }

    fn find_graph_index(&self, kg_id: u32) -> (r: Option<usize>)
        requires
            self.wf(),
        ensures
            r is None ==> !self.graph_map().contains_key(kg_id) && forall|k: int|
                0 <= k < self.graphs@.len() ==> (#[trigger] self.graphs@[k]).0 != kg_id,
            r matches Some(i) ==> i < self.graphs@.len() && self.graphs@[i as int].0 == kg_id
                && self.graph_map().contains_key(kg_id),
    {
        let mut i: usize = 0;
        while i < self.graphs.len()
            invariant
                self.wf(),
                i <= self.graphs@.len(),
                forall|k: int| 0 <= k < i ==> (#[trigger] self.graphs@[k]).0 != kg_id,
            decreases self.graphs@.len() - i,
        {
            if self.graphs[i].0 == kg_id {
                proof {
                    lemma_table_lookup(self.graphs@, i as int);
                }
                return Some(i);
            }
            i = i + 1;
        }
        proof {
            lemma_table_absent(self.graphs@, kg_id);
        }
        None
    }

    fn find_graph(&self, kg_id: u32) -> (r: bool)
        requires
            self.wf(),
        ensures
            r == self.graph_map().contains_key(kg_id),
    {
        self.find_graph_index(kg_id).is_some()
    }

    /// Creates a knowledge graph for the calling process under the next
    /// graph identifier (which moves on modulo 2^32); answers the identifier.
    pub fn handle_kg_create(&mut self, ctx: &OperationContext) -> (r: Result<u64, CognitiveError>)
        requires
            old(self).wf(),
        ensures
            final(self).wf(),
            r == Ok::<u64, CognitiveError>(old(self).next_graph() as u64),
            final(self).graph_map() == old(self).graph_map().insert(
                old(self).next_graph(),
                KnowledgeGraphHandle { id: old(self).next_graph(), process_id: ctx.process_id },
            ),
            final(self).next_graph() == old(self).next_graph().wrapping_add(1),
            final(self).model_map() == old(self).model_map(),
            final(self).next_model() == old(self).next_model(),
            final(self).operations() == old(self).operations(),
    {
        let kg_id = self.next_kg_id;
        self.next_kg_id = self.next_kg_id.wrapping_add(1);
        let handle = KnowledgeGraphHandle { id: kg_id, process_id: ctx.process_id };
        match self.find_graph_index(kg_id) {
            Some(i) => {
                proof {
                    crate::kernel::keyed::lemma_table_update(self.graphs@, i as int, handle);
                }
                self.graphs.set(i, (kg_id, handle));
            },
            None => {
                proof {
                    lemma_table_push(self.graphs@, kg_id, handle);
                }
                self.graphs.push((kg_id, handle));
            },
        }
        Ok(kg_id as u64)
    }

    /// Upserts a node or an edge into graph `kg_id`: one entity processed,
    /// or `NoEnt` for an unknown graph.
    pub fn handle_kg_upsert(&self, kg_id: u32) -> (r: Result<u64, CognitiveError>)
        requires
            self.wf(),
        ensures
            r == (if self.graph_map().contains_key(kg_id) {
                Ok::<u64, CognitiveError>(1)
            } else {
                Err::<u64, CognitiveError>(CognitiveError::NoEnt)
            }),
    {
        if !self.find_graph(kg_id) {
            return Err(CognitiveError::NoEnt);
        }
        Ok(1)
    }

    /// Queries or traverses graph `kg_id` into an output buffer of
    /// `output_len` bytes, all of which are written; `NoEnt` for an unknown
    /// graph.
    pub fn handle_kg_query(&self, kg_id: u32, output_len: u64) -> (r: Result<u64, CognitiveError>)
        requires
            self.wf(),
        ensures
            r == (if self.graph_map().contains_key(kg_id) {
                Ok::<u64, CognitiveError>(output_len)
            } else {
                Err::<u64, CognitiveError>(CognitiveError::NoEnt)
            }),
    {
        if !self.find_graph(kg_id) {
            return Err(CognitiveError::NoEnt);
        }
        Ok(output_len)
    }

    /// Semantic search of graph `kg_id` for the `top_k` best matches (at most
    /// 100), eight bytes per result identifier; `NoEnt` for an unknown graph.
    pub fn handle_rag_search(&self, kg_id: u32, top_k: u32) -> (r: Result<u64, CognitiveError>)
        requires
            self.wf(),
        ensures
            r == (if self.graph_map().contains_key(kg_id) {
                Ok::<u64, CognitiveError>(((if top_k < 100 { top_k as u64 } else { 100u64 }) * 8) as u64)
            } else {
                Err::<u64, CognitiveError>(CognitiveError::NoEnt)
            }),
    {
        if !self.find_graph(kg_id) {
            return Err(CognitiveError::NoEnt);
        }
        let results_count: u64 = if top_k < 100 { top_k as u64 } else { 100 };
        Ok(results_count * 8)
    }

    /// Builds (or optimizes) a retrieval context: the query is embedded,
    /// graph `kg_id` searched for `top_k` matches, and the context fills the
    /// `output_len`-byte output; `NoEnt` for an unknown graph.
    pub fn handle_rag_build_context(&self, kg_id: u32, top_k: u32, output_len: u64) -> (r: Result<u64, CognitiveError>)
        requires
            self.wf(),
        ensures
            r == (if self.graph_map().contains_key(kg_id) {
                Ok::<u64, CognitiveError>(output_len)
            } else {
                Err::<u64, CognitiveError>(CognitiveError::NoEnt)
            }),
    {
        let _embedded = handle_rag_embed(output_len);
        match self.handle_rag_search(kg_id, top_k) {
            Ok(_) => {},
            Err(e) => {
                return Err(e);
            },
        }
        Ok(output_len)
    }

    /// Registers a model of `size_bytes` for the calling process under the
    /// next model identifier (which is used up either way); a full registry
    /// refuses it with `NoMem`.
    pub fn handle_model_register(&mut self, ctx: &OperationContext, size_bytes: u64) -> (r: Result<u64, CognitiveError>)
        requires
            old(self).wf(),
        ensures
            final(self).wf(),
            final(self).next_model() == old(self).next_model().wrapping_add(1),
            final(self).graph_map() == old(self).graph_map(),
            final(self).operations() == old(self).operations(),
            old(self).model_map().dom().len() >= MAX_MODELS_PER_PROCESS as nat ==> r == Err::<u64, CognitiveError>(CognitiveError::NoMem)
                && final(self).model_map() == old(self).model_map(),
            old(self).model_map().dom().len() < MAX_MODELS_PER_PROCESS as nat ==> r == Ok::<u64, CognitiveError>(old(self).next_model() as u64)
                && final(self).model_map().dom() == old(self).model_map().dom().insert(old(self).next_model())
                && final(self).model_map()[old(self).next_model()].handle == (ModelHandle { id: old(self).next_model(), process_id: ctx.process_id })
                && final(self).model_map()[old(self).next_model()].size_bytes == size_bytes as usize
                && final(self).model_map()[old(self).next_model()].capabilities.min_memory_mb == (size_bytes / 0x10_0000u64) as u32,
    {
        let model_id = self.next_model_id;
        self.next_model_id = self.next_model_id.wrapping_add(1);
        let handle = ModelHandle { id: model_id, process_id: ctx.process_id };
        let mut input_shape: Vec<usize> = Vec::new();
        input_shape.push(1);
        input_shape.push(512);
        let mut output_shape: Vec<usize> = Vec::new();
        output_shape.push(1);
        output_shape.push(512);
        let model = RegisteredModel {
            handle,
            model_type: ModelType::LanguageModel,
            size_bytes: #[verifier::truncate] (size_bytes as usize),
            input_shape,
            output_shape,
            capabilities: ModelCapabilities {
                requires_npu: false,
                requires_gpu: false,
                can_use_neon: true,
                min_memory_mb: #[verifier::truncate] ((size_bytes / (1024 * 1024)) as u32),
                optimal_batch_size: 1,
            },
            performance_profile: PerformanceProfile {
                avg_inference_us: 1000,
                peak_throughput_ops: 100,
                power_consumption_mw: 500,
                accuracy_percent: 90,
            },
        };
        proof {
            crate::kernel::keyed::lemma_table_len(self.models@);
        }
        if self.models.len() >= MAX_MODELS_PER_PROCESS {
            return Err(CognitiveError::NoMem);
        }
        match self.find_model(model_id) {
            Some(i) => {
                proof {
                    crate::kernel::keyed::lemma_table_update(self.models@, i as int, model);
                    assert(self.model_map().dom().insert(model_id) =~= self.model_map().dom());
                }
                self.models.set(i, (model_id, model));
            },
            None => {
                proof {
                    lemma_table_push(self.models@, model_id, model);
                }
                self.models.push((model_id, model));
            },
        }
        Ok(model_id as u64)
    }

    /// Runs model `model_id` into an output of `output_len` bytes; answers
    /// the bytes written and the model's mean inference time in
    /// microseconds (which the platform waits out); `NoEnt` for an unknown
    /// model.
    pub fn handle_model_infer(&self, model_id: u32, output_len: u64) -> (r: Result<(u64, u32), CognitiveError>)
        requires
            self.wf(),
        ensures
            !self.model_map().contains_key(model_id) ==> r == Err::<(u64, u32), CognitiveError>(CognitiveError::NoEnt),
            self.model_map().contains_key(model_id) ==> r == Ok::<(u64, u32), CognitiveError>(
                (output_len, self.model_map()[model_id].performance_profile.avg_inference_us),
            ),
    {
        match self.find_model(model_id) {
            Some(i) => Ok((output_len, self.models[i].1.performance_profile.avg_inference_us)),
            None => Err(CognitiveError::NoEnt),
        }
    }

    /// Optimizes model `model_id` for this hardware; `NoEnt` for an unknown
    /// model.
    pub fn handle_model_optimize(&self, model_id: u32) -> (r: Result<u64, CognitiveError>)
        requires
            self.wf(),
        ensures
            r == (if self.model_map().contains_key(model_id) {
                Ok::<u64, CognitiveError>(1)
            } else {
                Err::<u64, CognitiveError>(CognitiveError::NoEnt)
            }),
    {
        match self.find_model(model_id) {
            Some(_) => Ok(1),
            None => Err(CognitiveError::NoEnt),
        }
    }

    /// Unregisters model `model_id`; `NoEnt` for an unknown model.
    pub fn handle_model_unload(&mut self, model_id: u32) -> (r: Result<u64, CognitiveError>)
        requires
            old(self).wf(),
        ensures
            final(self).wf(),
            r == (if old(self).model_map().contains_key(model_id) {
                Ok::<u64, CognitiveError>(1)
            } else {
                Err::<u64, CognitiveError>(CognitiveError::NoEnt)
            }),
            final(self).model_map() == old(self).model_map().remove(model_id),
            final(self).graph_map() == old(self).graph_map(),
            final(self).next_model() == old(self).next_model(),
            final(self).next_graph() == old(self).next_graph(),
            final(self).operations() == old(self).operations(),
    {
        match self.find_model(model_id) {
            Some(i) => {
                let ghost s = self.models@;
                self.models.remove(i);
                proof {
                    lemma_table_remove(s, i as int);
                }
                Ok(1)
            },
            None => {
                proof {
                    assert(self.model_map().remove(model_id) =~= self.model_map());
                }
                Err(CognitiveError::NoEnt)
            },
        }
    }

    /// Registered models, knowledge graphs and the operation counter.
    pub fn get_operation_stats(&self) -> (r: OperationStats)
        requires
            self.wf(),
        ensures
            r.registered_models == self.model_map().dom().len(),
            r.knowledge_graphs == self.graph_map().dom().len(),
            r.total_operations == self.operations(),
    {
        proof {
            crate::kernel::keyed::lemma_table_len(self.models@);
            crate::kernel::keyed::lemma_table_len(self.graphs@);
        }
        OperationStats {
            registered_models: self.models.len(),
            knowledge_graphs: self.graphs.len(),
            total_operations: self.operation_counter,
        }
    }

    fn find_model(&self, model_id: u32) -> (r: Option<usize>)
        requires
            self.wf(),
        ensures
            r is None ==> !self.model_map().contains_key(model_id) && forall|k: int|
                0 <= k < self.models@.len() ==> (#[trigger] self.models@[k]).0 != model_id,
            r matches Some(i) ==> i < self.models@.len() && self.models@[i as int].0 == model_id
                && self.model_map().contains_key(model_id) && self.model_map()[model_id] == self.models@[i as int].1,
    {
        let mut i: usize = 0;
        while i < self.models.len()
            invariant
                self.wf(),
                i <= self.models@.len(),
                forall|k: int| 0 <= k < i ==> (#[trigger] self.models@[k]).0 != model_id,
            decreases self.models@.len() - i,
        {
            if self.models[i].0 == model_id {
                proof {
                    lemma_table_lookup(self.models@, i as int);
                }
                return Some(i);
            }
            i = i + 1;
        }
        proof {
            lemma_table_absent(self.models@, model_id);
        }
        None
    }
}

/// Removing pair `i` removes its key from the map.
proof fn lemma_table_remove<V>(s: Seq<(u32, V)>, i: int)
    requires
        keys_unique(s),
        0 <= i < s.len(),
    ensures
        keys_unique(s.remove(i)),
        table_map(s.remove(i)) == table_map(s).remove(s[i].0),
    decreases s.len(),
{
    let t = s.remove(i);
    assert forall|a: int, b: int| 0 <= a < b < t.len() implies (#[trigger] t[a]).0 != (#[trigger] t[b]).0 by {
        let a0 = if a < i { a } else { a + 1 };
        let b0 = if b < i { b } else { b + 1 };
        assert(t[a] == s[a0] && t[b] == s[b0]);
    }
    if i == s.len() - 1 {
        assert(t =~= s.drop_last());
        lemma_unique_prefix(s);
        lemma_table_absent(s.drop_last(), s[i].0);
        assert(table_map(t) =~= table_map(s).remove(s[i].0));
    } else {
        let p = s.drop_last();
        lemma_unique_prefix(s);
        lemma_table_remove(p, i);
        assert(t.drop_last() =~= p.remove(i));
        assert(t.last() == s.last());
        assert(s.last().0 != s[i].0);
        assert(table_map(t) =~= table_map(s).remove(s[i].0));
    }
}

/// Embeds the request's text into an output of `output_len` bytes, all of
/// which are written.
pub fn handle_rag_embed(output_len: u64) -> (r: Result<u64, CognitiveError>)
    ensures
        r == Ok::<u64, CognitiveError>(output_len),
{
    Ok(output_len)
}

/// Timer cycles in `us` microseconds at a counter frequency of `freq` Hz;
/// without a known frequency, a thousand cycles per microsecond.
pub fn microseconds_to_cycles(us: u64, freq: u64) -> (r: u64)
    requires
        freq > 0 ==> us * freq <= u64::MAX,
        freq == 0 ==> us * 1000 <= u64::MAX,
    ensures
        r == (if freq > 0 { (us * freq) / 1_000_000 } else { us * 1000 }),
{
    if freq > 0 {
        (us * freq) / 1_000_000
    } else {
        us * 1000
    }
}

} // verus!
