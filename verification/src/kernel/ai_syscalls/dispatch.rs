//! Dispatch of a cognitive request: the descriptor's opcode picks the
//! handler, and the handler's answer becomes the completion posted back on
//! the request's ring (the platform posts it and reads the cycle counter).

use vstd::prelude::*;
use crate::kernel::ai_syscalls::distributed::{balance_load, connect_peer, submit_task, sync_state};
use crate::kernel::ai_syscalls::operations::{
    CognitiveError, KnowledgeGraphHandle, OperationContext, OperationRegistries, handle_rag_embed,
    MAX_MODELS_PER_PROCESS,
};

verus! {

/// Cognitive operations.
#[derive(Clone, Copy, Debug, PartialEq, Eq, Structural)]
pub enum CognitiveOp {
    KgCreate,
    KgUpsertNode,
    KgUpsertEdge,
    KgQuery,
    KgTraverse,
    RagEmbed,
    RagSearch,
    RagBuildContext,
    RagOptimizeContext,
    ModelRegister,
    ModelInfer,
    ModelOptimize,
    ModelUnload,
    DistPeerConnect,
    DistTaskSubmit,
    DistStateSync,
    DistLoadBalance,
}

/// A user buffer of a request.
#[derive(Clone, Copy, Debug, PartialEq, Eq, Structural)]
pub struct ScatterGatherEntry {
    pub addr: u64,
    pub len: u32,
}

/// Flag of a request that carries a real-time deadline in `aux_params[0]`.
pub const RT_DEADLINE: u32 = 1;

/// A cognitive request as submitted on a ring.
#[derive(Clone, Copy, Debug)]
pub struct CognitiveDescriptor {
    pub opcode: CognitiveOp,
    pub flags: u32,
    pub user_data: u64,
    pub input_sge: ScatterGatherEntry,
    pub output_sge: ScatterGatherEntry,
    pub aux_params: [u64; 4],
}

/// The completion posted for a request.
#[derive(Clone, Copy, Debug, PartialEq, Eq, Structural)]
pub struct CognitiveCompletion {
    pub user_data: u64,
    pub result: i64,
    pub cycles: u64,
    pub aux_data: u64,
}

/// Negative errno of an error: `-ENOENT` or `-ENOMEM`.
pub open spec fn errno_of(e: CognitiveError) -> i64 {
    match e {
        CognitiveError::NoEnt => -2i64,
        CognitiveError::NoMem => -12i64,
    }
}

/// Negative errno of an error: `-ENOENT` or `-ENOMEM`.
pub fn as_errno(e: CognitiveError) -> (r: i64)
    ensures
        r == errno_of(e),
{
    match e {
        CognitiveError::NoEnt => -2,
        CognitiveError::NoMem => -12,
    }
}

/// The deadline a request carries, when it is flagged real-time.
pub open spec fn deadline_of(desc: CognitiveDescriptor) -> Option<u64> {
    if desc.flags & RT_DEADLINE != 0 {
        Some(desc.aux_params[0])
    } else {
        None
    }
}

/// The deadline a request carries, when it is flagged real-time.
pub fn request_deadline(desc: &CognitiveDescriptor) -> (r: Option<u64>)
    ensures
        r == deadline_of(*desc),
{
    if desc.flags & RT_DEADLINE != 0 {
        Some(desc.aux_params[0])
    } else {
        None
    }
}

/// What the handler of `desc` answers against registries `g`: a count of
/// bytes, entities or identifiers, or the error.
pub open spec fn handler_outcome(g: OperationRegistries, desc: CognitiveDescriptor) -> Result<u64, CognitiveError> {
    let id = desc.aux_params[0] as u32;
    let out = desc.output_sge.len as u64;
    let graph = g.graph_map().contains_key(id);
    let model = g.model_map().contains_key(id);
    match desc.opcode {
        CognitiveOp::KgCreate => Ok(g.next_graph() as u64),
        CognitiveOp::KgUpsertNode | CognitiveOp::KgUpsertEdge => if graph {
            Ok(1)
        } else {
            Err(CognitiveError::NoEnt)
        },
        CognitiveOp::KgQuery | CognitiveOp::KgTraverse => if graph {
            Ok(out)
        } else {
            Err(CognitiveError::NoEnt)
        },
        CognitiveOp::RagEmbed => Ok(out),
        CognitiveOp::RagSearch => if graph {
            let top_k = desc.aux_params[1] as u32;
            Ok(((if top_k < 100 {
                top_k as u64
            } else {
                100u64
            }) * 8) as u64)
        } else {
            Err(CognitiveError::NoEnt)
        },
        CognitiveOp::RagBuildContext | CognitiveOp::RagOptimizeContext => if graph {
            Ok(out)
        } else {
            Err(CognitiveError::NoEnt)
        },
        CognitiveOp::ModelRegister => if g.model_map().dom().len() >= MAX_MODELS_PER_PROCESS as nat {
            Err(CognitiveError::NoMem)
        } else {
            Ok(g.next_model() as u64)
        },
        CognitiveOp::ModelInfer => if model {
            Ok(out)
        } else {
            Err(CognitiveError::NoEnt)
        },
        CognitiveOp::ModelOptimize | CognitiveOp::ModelUnload => if model {
            Ok(1)
        } else {
            Err(CognitiveError::NoEnt)
        },
        _ => Ok(1),
    }
}

impl OperationRegistries {
    /// Runs the handler that `desc`'s opcode names, in context `ctx`, and
    /// builds the completion of the request: its user data, the handler's
    /// count or negative errno, the cycles from the operation's start to
    /// `end_time`, and the operation identifier.
    pub fn dispatch(&mut self, desc: CognitiveDescriptor, ctx: &OperationContext, end_time: u64) -> (r: (
        CognitiveCompletion,
        Result<(), CognitiveError>,
    ))
        requires
            old(self).wf(),
        ensures
            final(self).wf(),
            r.0.user_data == desc.user_data,
            r.0.result == (match handler_outcome(*old(self), desc) {
                Ok(n) => n as i64,
                Err(e) => errno_of(e),
            }),
            r.0.cycles == end_time.wrapping_sub(ctx.start_time),
            r.0.aux_data == ctx.operation_id,
            r.1 == (match handler_outcome(*old(self), desc) {
                Ok(_) => Ok::<(), CognitiveError>(()),
                Err(e) => Err::<(), CognitiveError>(e),
            }),
            final(self).operations() == old(self).operations(),
            desc.opcode != CognitiveOp::KgCreate ==> final(self).graph_map() == old(self).graph_map(),
            desc.opcode != CognitiveOp::ModelRegister && desc.opcode != CognitiveOp::ModelUnload
                ==> final(self).model_map() == old(self).model_map(),
            desc.opcode == CognitiveOp::ModelUnload ==> final(self).model_map() == old(self).model_map().remove(
                desc.aux_params[0] as u32,
            ),
            desc.opcode == CognitiveOp::KgCreate ==> final(self).graph_map() == old(self).graph_map().insert(
                old(self).next_graph(),
                KnowledgeGraphHandle { id: old(self).next_graph(), process_id: ctx.process_id },
            ),
            desc.opcode == CognitiveOp::ModelRegister && handler_outcome(*old(self), desc) is Ok
                ==> final(self).model_map().dom() == old(self).model_map().dom().insert(old(self).next_model()),
            desc.opcode == CognitiveOp::ModelRegister && handler_outcome(*old(self), desc) is Err
                ==> final(self).model_map() == old(self).model_map(),
    {
        let id = desc.aux_params[0] as u32;
        let out = desc.output_sge.len as u64;
        let result = match desc.opcode {
            CognitiveOp::KgCreate => self.handle_kg_create(ctx),
            CognitiveOp::KgUpsertNode => self.handle_kg_upsert(id),
            CognitiveOp::KgUpsertEdge => self.handle_kg_upsert(id),
            CognitiveOp::KgQuery => self.handle_kg_query(id, out),
            CognitiveOp::KgTraverse => self.handle_kg_query(id, out),
            CognitiveOp::RagEmbed => handle_rag_embed(out),
            CognitiveOp::RagSearch => self.handle_rag_search(id, desc.aux_params[1] as u32),
            CognitiveOp::RagBuildContext => self.handle_rag_build_context(id, desc.aux_params[1] as u32, out),
            CognitiveOp::RagOptimizeContext => self.handle_rag_build_context(id, desc.aux_params[1] as u32, out),
            CognitiveOp::ModelRegister => self.handle_model_register(ctx, desc.input_sge.len as u64),
            CognitiveOp::ModelInfer => match self.handle_model_infer(id, out) {
                Ok((bytes, _inference_us)) => Ok(bytes),
                Err(e) => Err(e),
            },
            CognitiveOp::ModelOptimize => self.handle_model_optimize(id),
            CognitiveOp::ModelUnload => self.handle_model_unload(id),
            CognitiveOp::DistPeerConnect => connect_peer(ctx),
            CognitiveOp::DistTaskSubmit => submit_task(ctx),
            CognitiveOp::DistStateSync => sync_state(ctx),
            CognitiveOp::DistLoadBalance => balance_load(ctx),
        };
        let code: i64 = match result {
            Ok(bytes) => bytes as i64,
            Err(e) => as_errno(e),
        };
        let completion = CognitiveCompletion {
            user_data: desc.user_data,
            result: code,
            cycles: end_time.wrapping_sub(ctx.start_time),
            aux_data: ctx.operation_id,
        };
        let status = match result {
            Ok(_) => Ok(()),
            Err(e) => Err(e),
        };
        (completion, status)
    }
}

} // verus!
