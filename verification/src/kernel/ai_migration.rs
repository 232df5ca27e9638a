//! Live migration of AI workloads: the hardware state captured in a
//! checkpoint, its run-length compression and verification hash, and the
//! state manager that quiesces the accelerators and restores their state on
//! the target.
//!
//! Model weights are floating point and stay with the caller; the checkpoint
//! hash takes their bit patterns.

use vstd::prelude::*;

verus! {

/// Neural Engine instruction.
#[derive(Clone, Debug, PartialEq, Eq)]
pub struct NeuralInstruction {
    pub opcode: u32,
    pub operands: Vec<u32>,
    pub result_register: u32,
}

/// GPU memory mapping.
#[derive(Clone, Copy, Debug, PartialEq, Eq, Structural)]
pub struct GpuMemoryMapping {
    pub virtual_addr: u64,
    pub physical_addr: u64,
    pub size: usize,
    pub flags: u32,
}

/// State of a GPU command buffer.
#[derive(Clone, Copy, Debug, PartialEq, Eq, Structural)]
pub enum CommandBufferState {
    Idle,
    Executing,
    Completed,
    Error,
}

/// GPU command buffer.
#[derive(Clone, Debug, PartialEq, Eq)]
pub struct GpuCommandBuffer {
    pub buffer_id: u32,
    pub commands: Vec<u8>,
    pub execution_state: CommandBufferState,
}

/// GPU context and memory mappings.
#[derive(Clone, Debug)]
pub struct GpuContext {
    pub device_id: u32,
    pub context_handle: u64,
    pub memory_mappings: Vec<GpuMemoryMapping>,
    pub command_buffers: Vec<GpuCommandBuffer>,
}

/// One 64-byte cache line.
#[derive(Clone, Copy, Debug, PartialEq, Eq)]
pub struct CacheLine {
    pub addr: u64,
    pub data: [u8; 64],
    pub valid: bool,
    pub dirty: bool,
}

/// CPU cache contents by level.
#[derive(Clone, Debug)]
pub struct CpuCacheState {
    pub l1_cache_lines: Vec<CacheLine>,
    pub l2_cache_lines: Vec<CacheLine>,
    pub l3_cache_lines: Vec<CacheLine>,
}

/// Heap block descriptor.
#[derive(Clone, Copy, Debug, PartialEq, Eq, Structural)]
pub struct HeapBlock {
    pub addr: u64,
    pub size: usize,
    pub allocated: bool,
    pub metadata: u64,
}

/// Memory allocator state: heap blocks, free lists by block size and the
/// allocated blocks with their sizes (both tables keyed by their first
/// component).
#[derive(Clone, Debug)]
pub struct MemoryAllocatorState {
    pub heap_metadata: Vec<HeapBlock>,
    pub free_lists: Vec<(usize, Vec<u64>)>,
    pub allocated_blocks: Vec<(u64, usize)>,
}

/// ARM64 system registers of a thread.
#[derive(Clone, Copy, Debug, PartialEq, Eq, Structural)]
pub struct SystemRegisters {
    pub ttbr0_el1: u64,
    pub ttbr1_el1: u64,
    pub tcr_el1: u64,
    pub mair_el1: u64,
    pub sctlr_el1: u64,
}

/// Scheduling policy of a workload.
#[derive(Clone, Copy, Debug, PartialEq, Eq, Structural)]
pub enum SchedulerPolicy {
    RoundRobin,
    PriorityBased,
    DeadlineScheduling,
    CognitiveAware,
}

/// Scheduler state of a workload.
#[derive(Clone, Copy, Debug, PartialEq, Eq, Structural)]
pub struct SchedulerState {
    pub current_priority: u8,
    pub time_slice_remaining: u64,
    pub cpu_affinity_mask: u64,
    pub scheduler_policy: SchedulerPolicy,
}

/// Access rights of a captured page.
#[derive(Clone, Copy, Debug, PartialEq, Eq, Structural)]
pub struct PagePermissions {
    pub readable: bool,
    pub writable: bool,
    pub executable: bool,
    pub user_accessible: bool,
}

/// Memory attributes of a captured page.
#[derive(Clone, Copy, Debug, PartialEq, Eq, Structural)]
pub struct PageAttributes {
    pub cacheable: bool,
    pub shareable: bool,
    pub device_memory: bool,
    pub write_through: bool,
}

/// A captured memory page.
#[derive(Clone, Debug)]
pub struct MemoryPage {
    pub virtual_addr: u64,
    pub physical_addr: u64,
    pub data: Vec<u8>,
    pub permissions: PagePermissions,
    pub attributes: PageAttributes,
}

/// Node of the cognitive fabric.
#[derive(Clone, Copy, Debug, PartialEq, Eq, Structural)]
pub struct NodeId(pub u64);

/// A device on a node.
#[derive(Clone, Copy, Debug, PartialEq, Eq, Structural)]
pub struct DeviceId {
    pub node: NodeId,
    pub device_idx: u32,
}

/// A DMA transfer in flight.
#[derive(Clone, Copy, Debug, PartialEq, Eq, Structural)]
pub struct DmaTransfer {
    pub transfer_id: u32,
    pub src_addr: u64,
    pub dst_addr: u64,
    pub size: usize,
    pub progress_bytes: usize,
}

/// DMA ring descriptor.
#[derive(Clone, Copy, Debug, PartialEq, Eq, Structural)]
pub struct DmaDescriptor {
    pub descriptor_id: u32,
    pub command: u32,
    pub src_addr: u64,
    pub dst_addr: u64,
    pub length: u32,
    pub flags: u32,
}

/// DMA completion queue entry.
#[derive(Clone, Copy, Debug, PartialEq, Eq, Structural)]
pub struct CompletionEntry {
    pub completion_id: u32,
    pub status: u32,
    pub result: u64,
}

/// DMA engine state of a device.
#[derive(Clone, Debug)]
pub struct DmaState {
    pub active_transfers: Vec<DmaTransfer>,
    pub descriptor_rings: Vec<DmaDescriptor>,
    pub completion_queues: Vec<CompletionEntry>,
}

/// Snapshot of one device.
#[derive(Clone, Debug)]
pub struct DeviceStateSnapshot {
    pub device_id: DeviceId,
    pub register_state: Vec<u32>,
    pub memory_state: Vec<u8>,
    pub dma_state: DmaState,
}

/// Checkpoint compression algorithms.
#[derive(Clone, Copy, Debug, PartialEq, Eq, Structural)]
pub enum CompressionAlgorithm {
    Lz4,
    Zstd,
    Snappy,
    Custom,
}

/// Migration errors.
#[derive(Clone, Copy, Debug, PartialEq, Eq, Structural)]
pub enum MigrationError {
    CheckpointCreationFailed,
    StateExtractionFailed,
    NetworkTransferFailed,
    TargetRestoreFailed,
    VerificationFailed,
    HardwareIncompatible,
    InsufficientResources,
    TimeoutError,
}

/// Progress of a migration.
#[derive(Clone, Copy, Debug, PartialEq, Eq, Structural)]
pub enum MigrationState {
    Initiated,
    CreatingCheckpoint,
    TransferringState,
    RestoreInProgress,
    VerifyingState,
    Completed,
    Failed(MigrationError),
}

// ---------------------------------------------------------------------
// Run-length compression of checkpoint data
// ---------------------------------------------------------------------

/// End of the run of bytes equal to `s[0]` that continues from `k`,
/// counting at most 255 bytes.
pub open spec fn run_from(s: Seq<u8>, k: nat) -> nat
    decreases 255 - k,
{
    if k < 255 && k < s.len() && s[k as int] == s[0] {
        run_from(s, k + 1)
    } else {
        k
    }
}

/// Length of the run at the front of a non-empty `s` (1 to 255 bytes).
pub open spec fn run_length(s: Seq<u8>) -> nat {
    run_from(s, 1)
}

pub proof fn lemma_run_from_bounds(s: Seq<u8>, k: nat)
    requires
        1 <= k <= s.len(),
        k <= 255,
    ensures
        k <= run_from(s, k) <= s.len(),
        run_from(s, k) <= 255,
    decreases 255 - k,
{
    if k < 255 && k < s.len() && s[k as int] == s[0] {
        lemma_run_from_bounds(s, k + 1);
    }
}

/// Encoding of one run of `c` bytes `b`: an escape byte 0xFF, the count and
/// the byte for runs longer than three, else the bytes themselves.
pub open spec fn run_code(b: u8, c: nat) -> Seq<u8> {
    if c > 3 {
        seq![0xFFu8, c as u8, b]
    } else {
        Seq::new(c, |_i: int| b)
    }
}

/// Run-length encoding of `s`, run by run from the front.
pub open spec fn rle_encode(s: Seq<u8>) -> Seq<u8>
    decreases s.len(),
{
    if s.len() == 0 {
        Seq::empty()
    } else {
        let c = run_length(s);
        proof {
            lemma_run_from_bounds(s, 1);
        }
        run_code(s[0], c) + rle_encode(s.skip(c as int))
    }
}

/// Run-length compression of checkpoint data: runs of more than three
/// equal bytes (at most 255 at a time) become escape, count and byte.
pub fn compress_with_lz4(data: &[u8]) -> (r: Vec<u8>)
    ensures
        r@ == rle_encode(data@),
{
    let mut compressed: Vec<u8> = Vec::new();
    let n = data.len();
    let mut i: usize = 0;
    proof {
        assert(data@.skip(0) =~= data@);
        assert(compressed@ + rle_encode(data@) =~= rle_encode(data@));
    }
    while i < n
        invariant
            n == data@.len(),
            i <= n,
            compressed@ + rle_encode(data@.skip(i as int)) == rle_encode(data@),
        decreases n - i,
    {
        let byte = data[i];
        let ghost rest = data@.skip(i as int);
        let mut count: usize = 1;
        while i + count < n && data[i + count] == byte && count < 255
            invariant
                n == data@.len(),
                i < n,
                rest == data@.skip(i as int),
                byte == rest[0],
                1 <= count <= 255,
                i + count <= n,
                run_from(rest, count as nat) == run_from(rest, 1),
            decreases 255 - count,
        {
            count = count + 1;
        }
        proof {
            assert(run_from(rest, count as nat) == count);
            lemma_run_from_bounds(rest, 1);
        }
        let ghost before = compressed@;
        if count > 3 {
            compressed.push(0xFF);
            compressed.push(count as u8);
            compressed.push(byte);
            proof {
                assert(compressed@ == before + run_code(byte, count as nat));
            }
        } else {
            let mut j: usize = 0;
            while j < count
                invariant
                    j <= count,
                    count <= 3,
                    compressed@ == before + Seq::new(j as nat, |_i: int| byte),
                decreases count - j,
            {
                compressed.push(byte);
                j = j + 1;
                proof {
                    assert(compressed@ =~= before + Seq::new(j as nat, |_i: int| byte));
                }
            }
            proof {
                assert(compressed@ == before + run_code(byte, count as nat));
            }
        }
        proof {
            assert(rest.len() > 0);
            assert(rle_encode(rest) == run_code(rest[0], count as nat) + rle_encode(rest.skip(count as int)));
            assert(rest.skip(count as int) =~= data@.skip((i + count) as int));
            assert(compressed@ + rle_encode(data@.skip((i + count) as int)) =~= before + rle_encode(rest));
        }
        i = i + count;
    }
    proof {
        assert(data@.skip(n as int) =~= Seq::<u8>::empty());
        assert(compressed@ + Seq::<u8>::empty() =~= compressed@);
    }
    compressed
}

// ---------------------------------------------------------------------
// Checkpoint size and verification hash
// ---------------------------------------------------------------------

/// Bytes a checkpoint is expected to take when serialized: four per model
/// weight, a page per captured page, a kilobyte per device and a kilobyte
/// of metadata.
pub fn estimate_serialized_size(weight_count: usize, page_count: usize, device_count: usize) -> (r: usize)
    requires
        4 * weight_count + 4096 * page_count + 1024 * device_count + 1024 <= usize::MAX,
    ensures
        r == 4 * weight_count + 4096 * page_count + 1024 * device_count + 1024,
{
    let weights_size = weight_count * 4;
    let pages_size = page_count * 4096;
    let device_size = device_count * 1024;
    weights_size + pages_size + device_size + 1024
}

/// `h` folded with the words of `ws`, each step `h * 31 + w` modulo 2^64.
pub open spec fn hash_fold(h: u64, ws: Seq<u64>) -> u64
    decreases ws.len(),
{
    if ws.len() == 0 {
        h
    } else {
        hash_fold(h, ws.drop_last()).wrapping_mul(31).wrapping_add(ws.last())
    }
}

/// The first `n` entries of `s`, or all of it when shorter.
pub open spec fn prefix_upto<T>(s: Seq<T>, n: int) -> Seq<T> {
    if s.len() <= n {
        s
    } else {
        s.take(n)
    }
}

/// Verification hash of a checkpoint: the bit patterns of the first 100
/// model weights, then the first 100 compressed bytes.
pub open spec fn checkpoint_hash(weight_bits: Seq<u32>, compressed: Seq<u8>) -> u64 {
    hash_fold(
        hash_fold(0, prefix_upto(weight_bits, 100).map_values(|w: u32| w as u64)),
        prefix_upto(compressed, 100).map_values(|b: u8| b as u64),
    )
}

/// Computes the verification hash of a checkpoint from the bit patterns of
/// its model weights and its compressed data.
pub fn compute_checkpoint_hash(weight_bits: &[u32], compressed: &[u8]) -> (r: u64)
    ensures
        r == checkpoint_hash(weight_bits@, compressed@),
{
    let wn: usize = if weight_bits.len() < 100 { weight_bits.len() } else { 100 };
    let ghost ws = prefix_upto(weight_bits@, 100).map_values(|w: u32| w as u64);
    let mut hash: u64 = 0;
    let mut i: usize = 0;
    while i < wn
        invariant
            wn <= weight_bits@.len(),
            wn == ws.len(),
            ws == prefix_upto(weight_bits@, 100).map_values(|w: u32| w as u64),
            i <= wn,
            hash == hash_fold(0, ws.take(i as int)),
        decreases wn - i,
    {
        proof {
            assert(ws.take(i + 1).drop_last() =~= ws.take(i as int));
            assert(ws[i as int] == weight_bits@[i as int] as u64);
        }
        hash = hash.wrapping_mul(31).wrapping_add(weight_bits[i] as u64);
        i = i + 1;
    }
    proof {
        assert(ws.take(wn as int) =~= ws);
    }
    let ghost h0 = hash;
    let cn: usize = if compressed.len() < 100 { compressed.len() } else { 100 };
    let ghost cs = prefix_upto(compressed@, 100).map_values(|b: u8| b as u64);
    let mut k: usize = 0;
    while k < cn
        invariant
            cn <= compressed@.len(),
            cn == cs.len(),
            cs == prefix_upto(compressed@, 100).map_values(|b: u8| b as u64),
            k <= cn,
            hash == hash_fold(h0, cs.take(k as int)),
        decreases cn - k,
    {
        proof {
            assert(cs.take(k + 1).drop_last() =~= cs.take(k as int));
            assert(cs[k as int] == compressed@[k as int] as u64);
        }
        hash = hash.wrapping_mul(31).wrapping_add(compressed[k] as u64);
        k = k + 1;
    }
    proof {
        assert(cs.take(cn as int) =~= cs);
    }
    hash
}

// ---------------------------------------------------------------------
// Captured hardware state
// ---------------------------------------------------------------------

/// The GPU context as captured: one 16 MiB read-write-execute mapping and
/// one idle command buffer.
pub fn extract_gpu_context() -> (r: GpuContext)
    ensures
        r.device_id == 0,
        r.context_handle == 0x1000_0000,
        r.memory_mappings@ == seq![
            (GpuMemoryMapping { virtual_addr: 0x2000_0000u64, physical_addr: 0x4000_0000u64, size: 0x100_0000usize, flags: 7u32 }),
        ],
        r.command_buffers@.len() == 1,
        r.command_buffers@[0].buffer_id == 1,
        r.command_buffers@[0].commands@ == seq![1u8, 2u8, 3u8, 4u8],
        r.command_buffers@[0].execution_state == CommandBufferState::Idle,
{
    let mapping = GpuMemoryMapping { virtual_addr: 0x2000_0000, physical_addr: 0x4000_0000, size: 16 * 1024 * 1024, flags: 0x7 };
    let mut memory_mappings: Vec<GpuMemoryMapping> = Vec::new();
    memory_mappings.push(mapping);
    let mut commands: Vec<u8> = Vec::new();
    commands.push(1);
    commands.push(2);
    commands.push(3);
    commands.push(4);
    let mut command_buffers: Vec<GpuCommandBuffer> = Vec::new();
    command_buffers.push(GpuCommandBuffer { buffer_id: 1, commands, execution_state: CommandBufferState::Idle });
    proof {
        assert(memory_mappings@ =~= seq![mapping]);
        assert(command_buffers@[0].commands@ =~= seq![1u8, 2u8, 3u8, 4u8]);
    }
    GpuContext { device_id: 0, context_handle: 0x1000_0000, memory_mappings, command_buffers }
}

/// The CPU cache state as captured: one clean, valid L1 line at 0x1000.
pub fn extract_cpu_cache_state() -> (r: CpuCacheState)
    ensures
        r.l1_cache_lines@.len() == 1,
        r.l1_cache_lines@[0].addr == 0x1000,
        r.l1_cache_lines@[0].data@ == Seq::new(64, |_j: int| 0u8),
        r.l1_cache_lines@[0].valid && !r.l1_cache_lines@[0].dirty,
        r.l2_cache_lines@.len() == 0,
        r.l3_cache_lines@.len() == 0,
{
    let line = CacheLine { addr: 0x1000, data: [0u8; 64], valid: true, dirty: false };
    let mut l1: Vec<CacheLine> = Vec::new();
    l1.push(line);
    proof {
        assert(line.data@ =~= Seq::new(64, |_j: int| 0u8));
    }
    CpuCacheState { l1_cache_lines: l1, l2_cache_lines: Vec::new(), l3_cache_lines: Vec::new() }
}

/// The allocator state as captured: one allocated 1 MiB block, empty tables.
pub fn extract_memory_allocator_state() -> (r: MemoryAllocatorState)
    ensures
        r.heap_metadata@ == seq![(HeapBlock { addr: 0x1000_0000u64, size: 0x10_0000usize, allocated: true, metadata: 1u64 })],
        r.free_lists@.len() == 0,
        r.allocated_blocks@.len() == 0,
{
    let block = HeapBlock { addr: 0x1000_0000, size: 1024 * 1024, allocated: true, metadata: 1 };
    let mut heap: Vec<HeapBlock> = Vec::new();
    heap.push(block);
    proof {
        assert(heap@ =~= seq![block]);
    }
    MemoryAllocatorState { heap_metadata: heap, free_lists: Vec::new(), allocated_blocks: Vec::new() }
}

/// Page `i` of the pages captured for a workload: zeroed, read-write user
/// memory, the first at 0x4000_0000 (0x5000_0000 physical) and each of the
/// following one page higher.
pub open spec fn captured_page(p: MemoryPage, i: int) -> bool {
    &&& p.virtual_addr == 0x4000_0000 + i * 4096
    &&& p.physical_addr == 0x5000_0000 + i * 4096
    &&& p.data@ == Seq::new(4096, |_j: int| 0u8)
    &&& p.permissions == (PagePermissions { readable: true, writable: true, executable: false, user_accessible: true })
    &&& p.attributes == (PageAttributes { cacheable: true, shareable: false, device_memory: false, write_through: false })
}

/// The sixteen zeroed read-write user pages of a workload (64 KiB).
pub fn capture_memory_pages() -> (r: Vec<MemoryPage>)
    ensures
        r@.len() == 16,
        forall|i: int| 0 <= i < 16 ==> captured_page(#[trigger] r@[i], i),
{
    let mut pages: Vec<MemoryPage> = Vec::new();
    let mut i: u64 = 0;
    while i < 16
        invariant
            i <= 16,
            pages@.len() == i,
            forall|k: int| 0 <= k < i ==> captured_page(#[trigger] pages@[k], k),
        decreases 16 - i,
    {
        let mut data: Vec<u8> = Vec::new();
        let mut j: usize = 0;
        while j < 4096
            invariant
                j <= 4096,
                data@ == Seq::new(j as nat, |_k: int| 0u8),
            decreases 4096 - j,
        {
            data.push(0);
            j = j + 1;
            proof {
                assert(data@ =~= Seq::new(j as nat, |_k: int| 0u8));
            }
        }
        pages.push(
            MemoryPage {
                virtual_addr: 0x4000_0000 + i * 4096,
                physical_addr: 0x5000_0000 + i * 4096,
                data,
                permissions: PagePermissions { readable: true, writable: true, executable: false, user_accessible: true },
                attributes: PageAttributes { cacheable: true, shareable: false, device_memory: false, write_through: false },
            },
        );
        i = i + 1;
    }
    pages
}

/// The device snapshots as captured: device 0 of node 0, three registers,
/// a zeroed kilobyte of device memory and an idle DMA engine.
pub fn extract_device_state() -> (r: Vec<DeviceStateSnapshot>)
    ensures
        r@.len() == 1,
        r@[0].device_id == (DeviceId { node: NodeId(0), device_idx: 0 }),
        r@[0].register_state@ == seq![0x1000u32, 0x2000u32, 0x3000u32],
        r@[0].memory_state@ == Seq::new(1024, |_j: int| 0u8),
        r@[0].dma_state.active_transfers@.len() == 0,
        r@[0].dma_state.descriptor_rings@.len() == 0,
        r@[0].dma_state.completion_queues@.len() == 0,
{
    let mut regs: Vec<u32> = Vec::new();
    regs.push(0x1000);
    regs.push(0x2000);
    regs.push(0x3000);
    let mut mem: Vec<u8> = Vec::new();
    let mut j: usize = 0;
    while j < 1024
        invariant
            j <= 1024,
            mem@ == Seq::new(j as nat, |_k: int| 0u8),
        decreases 1024 - j,
    {
        mem.push(0);
        j = j + 1;
        proof {
            assert(mem@ =~= Seq::new(j as nat, |_k: int| 0u8));
        }
    }
    proof {
        assert(regs@ =~= seq![0x1000u32, 0x2000u32, 0x3000u32]);
    }
    let mut out: Vec<DeviceStateSnapshot> = Vec::new();
    out.push(
        DeviceStateSnapshot {
            device_id: DeviceId { node: NodeId(0), device_idx: 0 },
            register_state: regs,
            memory_state: mem,
            dma_state: DmaState { active_transfers: Vec::new(), descriptor_rings: Vec::new(), completion_queues: Vec::new() },
        },
    );
    out
}

// ---------------------------------------------------------------------
// Accelerator state manager
// ---------------------------------------------------------------------

/// Neural Engine interface: its command queue and pipeline state.
#[derive(Debug)]
pub struct NeuralEngineInterface {
    pub device_handle: u64,
    pub command_queue: Vec<u32>,
    pub pipeline_state: u32,
}

/// GPU interface: the context, its memory objects and command encoders.
#[derive(Debug)]
pub struct GpuStateManager {
    pub context_handle: u64,
    pub memory_objects: Vec<u64>,
    pub command_encoders: Vec<u64>,
}

/// Memory interface: page tables, allocated regions and DMA mappings.
#[derive(Debug)]
pub struct MemoryStateManager {
    pub page_tables: Vec<u64>,
    pub allocated_regions: Vec<(u64, usize)>,
    pub dma_mappings: Vec<(u64, u64, usize)>,
}

/// Hardware state manager for quiescing accelerators and restoring their
/// state.
#[derive(Debug)]
pub struct HardwareStateManager {
    pub neural_engine_interface: NeuralEngineInterface,
    pub gpu_state_manager: GpuStateManager,
    pub memory_manager: MemoryStateManager,
}

/// Pipeline state of a paused Neural Engine.
pub const PIPELINE_PAUSED: u32 = 0;

impl HardwareStateManager {
    /// Interfaces with their device handles and nothing queued.
    pub fn new() -> (r: Self)
        ensures
            r.neural_engine_interface.device_handle == 0x1000,
            r.neural_engine_interface.command_queue@.len() == 0,
            r.neural_engine_interface.pipeline_state == PIPELINE_PAUSED,
            r.gpu_state_manager.context_handle == 0x2000,
            r.gpu_state_manager.memory_objects@.len() == 0,
            r.gpu_state_manager.command_encoders@.len() == 0,
            r.memory_manager.page_tables@.len() == 0,
            r.memory_manager.allocated_regions@.len() == 0,
            r.memory_manager.dma_mappings@.len() == 0,
    {
        HardwareStateManager {
            neural_engine_interface: NeuralEngineInterface { device_handle: 0x1000, command_queue: Vec::new(), pipeline_state: 0 },
            gpu_state_manager: GpuStateManager { context_handle: 0x2000, memory_objects: Vec::new(), command_encoders: Vec::new() },
            memory_manager: MemoryStateManager { page_tables: Vec::new(), allocated_regions: Vec::new(), dma_mappings: Vec::new() },
        }
    }

    /// Pauses the Neural Engine pipeline; answers whether its in-flight
    /// commands have drained (the caller yields and asks again until they
    /// have). The GPU encoders and the DMA mappings are waited for one
    /// yield each.
    pub fn quiesce_accelerators(&mut self) -> (drained: bool)
        ensures
            final(self).neural_engine_interface.pipeline_state == PIPELINE_PAUSED,
            final(self).neural_engine_interface.command_queue@ == old(self).neural_engine_interface.command_queue@,
            final(self).neural_engine_interface.device_handle == old(self).neural_engine_interface.device_handle,
            final(self).gpu_state_manager.context_handle == old(self).gpu_state_manager.context_handle,
            final(self).gpu_state_manager.memory_objects@ == old(self).gpu_state_manager.memory_objects@,
            final(self).gpu_state_manager.command_encoders@ == old(self).gpu_state_manager.command_encoders@,
            final(self).memory_manager.allocated_regions@ == old(self).memory_manager.allocated_regions@,
            final(self).memory_manager.dma_mappings@ == old(self).memory_manager.dma_mappings@,
            final(self).memory_manager.page_tables@ == old(self).memory_manager.page_tables@,
            drained == (old(self).neural_engine_interface.command_queue@.len() == 0),
    {
        self.neural_engine_interface.pipeline_state = PIPELINE_PAUSED;
        self.neural_engine_interface.command_queue.len() == 0
    }

    /// Writes the saved pipeline registers back: each is queued to the
    /// Neural Engine as a 32-bit command.
    pub fn restore_neural_engine_state(&mut self, pipeline_registers: &[u64])
        ensures
            final(self).neural_engine_interface.command_queue@ == old(self).neural_engine_interface.command_queue@
                + pipeline_registers@.map_values(|r: u64| r as u32),
            final(self).neural_engine_interface.pipeline_state == old(self).neural_engine_interface.pipeline_state,
            final(self).neural_engine_interface.device_handle == old(self).neural_engine_interface.device_handle,
    {
        let ghost start = self.neural_engine_interface.command_queue@;
        let mut i: usize = 0;
        while i < pipeline_registers.len()
            invariant
                i <= pipeline_registers@.len(),
                self.neural_engine_interface.command_queue@ == start + pipeline_registers@.take(i as int).map_values(
                    |r: u64| r as u32,
                ),
                self.neural_engine_interface.pipeline_state == old(self).neural_engine_interface.pipeline_state,
                self.neural_engine_interface.device_handle == old(self).neural_engine_interface.device_handle,
                start == old(self).neural_engine_interface.command_queue@,
            decreases pipeline_registers@.len() - i,
        {
            let v = #[verifier::truncate] (pipeline_registers[i] as u32);
            self.neural_engine_interface.command_queue.push(v);
            proof {
                assert(pipeline_registers@.take(i + 1).map_values(|r: u64| r as u32) =~= pipeline_registers@.take(
                    i as int,
                ).map_values(|r: u64| r as u32).push(v));
            }
            i = i + 1;
        }
        proof {
            assert(pipeline_registers@.take(i as int) =~= pipeline_registers@);
        }
    }

    /// Restores a GPU context: its handle, and one memory object per
    /// mapping (at the mapping's virtual address).
    pub fn restore_gpu_context(&mut self, gpu_context: &GpuContext)
        ensures
            final(self).gpu_state_manager.context_handle == gpu_context.context_handle,
            final(self).gpu_state_manager.memory_objects@ == old(self).gpu_state_manager.memory_objects@
                + gpu_context.memory_mappings@.map_values(|m: GpuMemoryMapping| m.virtual_addr),
            final(self).gpu_state_manager.command_encoders@ == old(self).gpu_state_manager.command_encoders@,
    {
        self.gpu_state_manager.context_handle = gpu_context.context_handle;
        let ghost start = self.gpu_state_manager.memory_objects@;
        let ms = &gpu_context.memory_mappings;
        let mut i: usize = 0;
        while i < ms.len()
            invariant
                i <= ms@.len(),
                self.gpu_state_manager.memory_objects@ == start + ms@.take(i as int).map_values(
                    |m: GpuMemoryMapping| m.virtual_addr,
                ),
                self.gpu_state_manager.context_handle == gpu_context.context_handle,
                self.gpu_state_manager.command_encoders@ == old(self).gpu_state_manager.command_encoders@,
                start == old(self).gpu_state_manager.memory_objects@,
            decreases ms@.len() - i,
        {
            let a = ms[i].virtual_addr;
            self.gpu_state_manager.memory_objects.push(a);
            proof {
                assert(ms@.take(i + 1).map_values(|m: GpuMemoryMapping| m.virtual_addr) =~= ms@.take(
                    i as int,
                ).map_values(|m: GpuMemoryMapping| m.virtual_addr).push(a));
            }
            i = i + 1;
        }
        proof {
            assert(ms@.take(i as int) =~= ms@);
        }
    }

    /// Restores the allocator state: every heap block becomes an allocated
    /// region.
    pub fn restore_memory_state(&mut self, memory_state: &MemoryAllocatorState)
        ensures
            final(self).memory_manager.allocated_regions@ == old(self).memory_manager.allocated_regions@
                + memory_state.heap_metadata@.map_values(|b: HeapBlock| (b.addr, b.size)),
            final(self).memory_manager.page_tables@ == old(self).memory_manager.page_tables@,
            final(self).memory_manager.dma_mappings@ == old(self).memory_manager.dma_mappings@,
    {
        let ghost start = self.memory_manager.allocated_regions@;
        let bs = &memory_state.heap_metadata;
        let mut i: usize = 0;
        while i < bs.len()
            invariant
                i <= bs@.len(),
                self.memory_manager.allocated_regions@ == start + bs@.take(i as int).map_values(
                    |b: HeapBlock| (b.addr, b.size),
                ),
                self.memory_manager.page_tables@ == old(self).memory_manager.page_tables@,
                self.memory_manager.dma_mappings@ == old(self).memory_manager.dma_mappings@,
                start == old(self).memory_manager.allocated_regions@,
            decreases bs@.len() - i,
        {
            let region = (bs[i].addr, bs[i].size);
            self.memory_manager.allocated_regions.push(region);
            proof {
                assert(bs@.take(i + 1).map_values(|b: HeapBlock| (b.addr, b.size)) =~= bs@.take(i as int).map_values(
                    |b: HeapBlock| (b.addr, b.size),
                ).push(region));
            }
            i = i + 1;
        }
        proof {
            assert(bs@.take(i as int) =~= bs@);
        }
    }
}

/// Sets up checkpoint storage, the hardware interfaces and the migration
/// protocols; none of them can fail.
pub fn init_ai_migration() -> (r: Result<(), &'static str>)
    ensures
        r is Ok,
{
    match init_checkpoint_storage() {
        Ok(()) => {},
        Err(e) => {
            return Err(e);
        },
    }
    match init_hardware_interfaces() {
        Ok(()) => {},
        Err(e) => {
            return Err(e);
        },
    }
    init_migration_protocols()
}

fn init_checkpoint_storage() -> (r: Result<(), &'static str>)
    ensures
        r is Ok,
{
    Ok(())
}

fn init_hardware_interfaces() -> (r: Result<(), &'static str>)
    ensures
        r is Ok,
{
    Ok(())
}

fn init_migration_protocols() -> (r: Result<(), &'static str>)
    ensures
        r is Ok,
{
    Ok(())
}

} // verus!
