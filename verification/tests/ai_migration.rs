use sis_kernel::kernel::ai_migration::{
    capture_memory_pages, compress_with_lz4, compute_checkpoint_hash, estimate_serialized_size, extract_cpu_cache_state,
    extract_device_state, extract_gpu_context, extract_memory_allocator_state, init_ai_migration, CommandBufferState,
    DeviceId, GpuContext, GpuMemoryMapping, HardwareStateManager, HeapBlock, MemoryAllocatorState, NodeId,
    PIPELINE_PAUSED,
};

#[test]
fn run_length_compression() {
    assert_eq!(compress_with_lz4(&[]), Vec::<u8>::new());
    assert_eq!(compress_with_lz4(&[1, 1, 1, 1, 1, 2, 3, 3]), vec![0xFF, 5, 1, 2, 3, 3]);
    // Runs of three or fewer stay as they are.
    assert_eq!(compress_with_lz4(&[7, 7, 7]), vec![7, 7, 7]);
    assert_eq!(compress_with_lz4(&[7, 7, 7, 7]), vec![0xFF, 4, 7]);
    // A run counts at most 255 bytes.
    assert_eq!(compress_with_lz4(&[0u8; 300]), vec![0xFF, 255, 0, 0xFF, 45, 0]);
    assert_eq!(compress_with_lz4(&[0u8; 258]), vec![0xFF, 255, 0, 0, 0, 0]);
}

fn reference_hash(weights: &[u32], data: &[u8]) -> u64 {
    let mut h = 0u64;
    for w in &weights[..weights.len().min(100)] {
        h = h.wrapping_mul(31).wrapping_add(*w as u64);
    }
    for b in &data[..data.len().min(100)] {
        h = h.wrapping_mul(31).wrapping_add(*b as u64);
    }
    h
}

#[test]
fn checkpoint_hash() {
    assert_eq!(compute_checkpoint_hash(&[], &[]), 0);
    assert_eq!(compute_checkpoint_hash(&[1], &[2]), 31 + 2);
    let weights: Vec<u32> = (0..150).map(|i| 0.5f32.to_bits().wrapping_add(i)).collect();
    let data: Vec<u8> = (0..=255u8).collect();
    assert_eq!(compute_checkpoint_hash(&weights, &data), reference_hash(&weights, &data));
    // Only the first hundred of each count.
    let mut more = weights.clone();
    more[120] = 9;
    assert_eq!(compute_checkpoint_hash(&more, &data), compute_checkpoint_hash(&weights, &data));
}

#[test]
fn serialized_size() {
    assert_eq!(estimate_serialized_size(0, 0, 0), 1024);
    assert_eq!(estimate_serialized_size(10, 16, 1), 40 + 16 * 4096 + 1024 + 1024);
}

#[test]
fn captured_state() {
    let gpu = extract_gpu_context();
    assert_eq!(gpu.context_handle, 0x1000_0000);
    assert_eq!(gpu.memory_mappings[0].size, 16 * 1024 * 1024);
    assert_eq!(gpu.command_buffers[0].execution_state, CommandBufferState::Idle);
    let cache = extract_cpu_cache_state();
    assert_eq!(cache.l1_cache_lines.len(), 1);
    assert!(cache.l2_cache_lines.is_empty());
    let alloc = extract_memory_allocator_state();
    assert_eq!(alloc.heap_metadata[0].size, 1024 * 1024);
    let pages = capture_memory_pages();
    assert_eq!(pages.len(), 16);
    assert_eq!(pages[3].virtual_addr, 0x4000_0000 + 3 * 4096);
    assert_eq!(pages[15].physical_addr, 0x5000_0000 + 15 * 4096);
    assert!(pages[0].data.iter().all(|b| *b == 0) && pages[0].data.len() == 4096);
    let devices = extract_device_state();
    assert_eq!(devices[0].device_id, DeviceId { node: NodeId(0), device_idx: 0 });
    assert_eq!(devices[0].register_state, vec![0x1000, 0x2000, 0x3000]);
    assert_eq!(init_ai_migration(), Ok(()));
}

#[test]
fn quiesce_and_restore() {
    let mut m = HardwareStateManager::new();
    assert!(m.quiesce_accelerators());
    m.restore_neural_engine_state(&[0x1_0000_0001, 0x2000]);
    assert_eq!(m.neural_engine_interface.command_queue, vec![1, 0x2000]);
    // In-flight commands keep the engine from being quiesced.
    m.neural_engine_interface.pipeline_state = 1;
    assert!(!m.quiesce_accelerators());
    assert_eq!(m.neural_engine_interface.pipeline_state, PIPELINE_PAUSED);
    let ctx = GpuContext {
        device_id: 0,
        context_handle: 0xABC,
        memory_mappings: vec![
            GpuMemoryMapping { virtual_addr: 0x10, physical_addr: 0, size: 1, flags: 0 },
            GpuMemoryMapping { virtual_addr: 0x20, physical_addr: 0, size: 1, flags: 0 },
        ],
        command_buffers: vec![],
    };
    m.restore_gpu_context(&ctx);
    assert_eq!(m.gpu_state_manager.context_handle, 0xABC);
    assert_eq!(m.gpu_state_manager.memory_objects, vec![0x10, 0x20]);
    let st = MemoryAllocatorState {
        heap_metadata: vec![HeapBlock { addr: 0x100, size: 64, allocated: true, metadata: 0 }],
        free_lists: vec![],
        allocated_blocks: vec![],
    };
    m.restore_memory_state(&st);
    assert_eq!(m.memory_manager.allocated_regions, vec![(0x100, 64)]);
}
