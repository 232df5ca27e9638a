use sis_kernel::kernel::ai_syscalls::dispatch::{
    request_deadline, CognitiveDescriptor, CognitiveOp, ScatterGatherEntry, RT_DEADLINE,
};
use sis_kernel::kernel::ai::distributed::gossip::{self, GossipMessage, GossipProtocol};
use sis_kernel::kernel::ai::distributed::model_registry::{
    self, registry, ArchType, FormatType, ModelEntry, ModelFormat, ModelRegistry, PerformanceMetrics,
};
use sis_kernel::kernel::ai::WorkloadType;
use sis_kernel::kernel::ai_syscalls::distributed::{balance_load, connect_peer, submit_task, sync_state};
use sis_kernel::kernel::ai_syscalls::operations::{
    handle_rag_embed, microseconds_to_cycles, CognitiveError, OperationRegistries,
};

fn format(arch: ArchType, format_type: FormatType, latency_us: u64) -> ModelFormat {
    ModelFormat {
        arch,
        format_type,
        file_path: format!("/models/{:?}", format_type),
        performance_metrics: PerformanceMetrics { latency_us, throughput_ops_per_sec: 1, memory_usage_mb: 1 },
    }
}

#[test]
fn optimal_format_per_architecture() {
    let mut r = ModelRegistry::new();
    let entry = ModelEntry {
        model_id: 7,
        name: "resnet".to_string(),
        formats: vec![
            format(ArchType::X86_64, FormatType::ONNX, 300),
            format(ArchType::AArch64, FormatType::CoreML, 120),
            format(ArchType::X86_64, FormatType::TensorRT, 90),
            format(ArchType::AArch64, FormatType::TensorFlowLite, 120),
        ],
    };
    assert_eq!(r.register_model(entry), Ok(()));
    let x86 = r.get_optimal_format(7, ArchType::X86_64, WorkloadType::Interactive).unwrap();
    assert_eq!(x86.format_type, FormatType::TensorRT);
    // On a tie the first format wins.
    let arm = r.get_optimal_format(7, ArchType::AArch64, WorkloadType::Interactive).unwrap();
    assert_eq!(arm.format_type, FormatType::CoreML);
    assert!(r.get_optimal_format(8, ArchType::AArch64, WorkloadType::Interactive).is_none());
    // Registering again replaces the entry.
    let only_x86 = ModelEntry { model_id: 7, name: "resnet".to_string(), formats: vec![format(ArchType::X86_64, FormatType::ONNX, 5)] };
    r.register_model(only_x86).unwrap();
    assert!(r.get_optimal_format(7, ArchType::AArch64, WorkloadType::Training).is_none());
}

#[test]
fn registry_slot() {
    let mut slot: Option<ModelRegistry> = None;
    assert!(registry(&mut slot).is_err());
    assert_eq!(model_registry::init(&mut slot), Ok(()));
    assert!(registry(&mut slot).is_ok());
}

#[test]
fn gossip_broadcast() {
    let mut slot: Option<GossipProtocol> = None;
    assert_eq!(gossip::init(&mut slot), Ok(()));
    let g = slot.as_mut().unwrap();
    let msg = GossipMessage { model_id: 1, version: 2, hash: [0; 32], timestamp: 3 };
    assert_eq!(g.broadcast_model_update(msg), Ok(()));
}

#[test]
fn knowledge_graph_operations() {
    let mut reg = OperationRegistries::new();
    let ctx = reg.begin_operation(3, 1234, 100, None);
    assert_eq!(ctx.operation_id, 1);
    assert_eq!(reg.begin_operation(3, 1234, 101, Some(50)).operation_id, 2);
    assert_eq!(reg.handle_kg_upsert(1), Err(CognitiveError::NoEnt));
    assert_eq!(reg.handle_kg_create(&ctx), Ok(1));
    assert_eq!(reg.handle_kg_create(&ctx), Ok(2));
    assert_eq!(reg.handle_kg_upsert(1), Ok(1));
    assert_eq!(reg.handle_kg_query(2, 512), Ok(512));
    assert_eq!(reg.handle_kg_query(3, 512), Err(CognitiveError::NoEnt));
    assert_eq!(reg.handle_rag_search(1, 10), Ok(80));
    assert_eq!(reg.handle_rag_search(1, 1000), Ok(800));
    assert_eq!(reg.handle_rag_build_context(2, 5, 4096), Ok(4096));
    assert_eq!(reg.handle_rag_build_context(9, 5, 4096), Err(CognitiveError::NoEnt));
    assert_eq!(handle_rag_embed(64), Ok(64));
    let stats = reg.get_operation_stats();
    assert_eq!(stats.knowledge_graphs, 2);
    assert_eq!(stats.total_operations, 3);
}

#[test]
fn model_operations() {
    let mut reg = OperationRegistries::new();
    let ctx = reg.begin_operation(0, 42, 0, None);
    assert_eq!(reg.handle_model_register(&ctx, 3 * 1024 * 1024), Ok(1));
    assert_eq!(reg.handle_model_infer(1, 256), Ok((256, 1000)));
    assert_eq!(reg.handle_model_infer(2, 256), Err(CognitiveError::NoEnt));
    assert_eq!(reg.handle_model_optimize(1), Ok(1));
    assert_eq!(reg.handle_model_unload(1), Ok(1));
    assert_eq!(reg.handle_model_unload(1), Err(CognitiveError::NoEnt));
    // The registry holds at most 64 models.
    for i in 0..64u64 {
        assert_eq!(reg.handle_model_register(&ctx, 0), Ok(2 + i));
    }
    assert_eq!(reg.handle_model_register(&ctx, 0), Err(CognitiveError::NoMem));
    assert_eq!(reg.get_operation_stats().registered_models, 64);
    // The refused registration used up its identifier.
    assert_eq!(reg.handle_model_unload(66), Err(CognitiveError::NoEnt));
    assert_eq!(reg.handle_model_unload(65), Ok(1));
    assert_eq!(reg.handle_model_register(&ctx, 0), Ok(67));
}

#[test]
fn timing_and_distributed() {
    assert_eq!(microseconds_to_cycles(40, 24_000_000), 960);
    assert_eq!(microseconds_to_cycles(40, 0), 40_000);
    let ctx = OperationRegistries::new().begin_operation(0, 1, 0, None);
    assert_eq!(connect_peer(&ctx), Ok(1));
    assert_eq!(submit_task(&ctx), Ok(1));
    assert_eq!(sync_state(&ctx), Ok(1));
    assert_eq!(balance_load(&ctx), Ok(1));
}

#[test]
fn dispatch_builds_completions() {
    let sge = |len: u32| ScatterGatherEntry { addr: 0x1000, len };
    let desc = |opcode: CognitiveOp, id: u64, out: u32| CognitiveDescriptor {
        opcode,
        flags: 0,
        user_data: 77,
        input_sge: sge(0),
        output_sge: sge(out),
        aux_params: [id, 5, 0, 0],
    };
    let mut reg = OperationRegistries::new();
    let ctx = reg.begin_operation(3, 9, 100, None);
    let (c, r) = reg.dispatch(desc(CognitiveOp::KgCreate, 0, 0), &ctx, 160);
    assert_eq!(r, Ok(()));
    assert_eq!((c.user_data, c.result, c.cycles, c.aux_data), (77, 1, 60, ctx.operation_id));
    let (c, r) = reg.dispatch(desc(CognitiveOp::RagSearch, 1, 0), &ctx, 100);
    assert_eq!((c.result, r), (40, Ok(())));
    let (c, r) = reg.dispatch(desc(CognitiveOp::KgQuery, 7, 256), &ctx, 100);
    assert_eq!((c.result, r), (-2, Err(CognitiveError::NoEnt)));
    let (c, r) = reg.dispatch(desc(CognitiveOp::KgQuery, 1, 256), &ctx, 100);
    assert_eq!((c.result, r), (256, Ok(())));
    let (c, _) = reg.dispatch(desc(CognitiveOp::DistTaskSubmit, 0, 0), &ctx, 100);
    assert_eq!(c.result, 1);
    let mut rt = desc(CognitiveOp::ModelInfer, 3, 8);
    assert_eq!(request_deadline(&rt), None);
    rt.flags = RT_DEADLINE;
    assert_eq!(request_deadline(&rt), Some(3));
}
