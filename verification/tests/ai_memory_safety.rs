use sis_kernel::kernel::ai_memory_safety::{
    AIDmaManager, AIMemoryAllocator, CanaryManager, DeviceId, DmaError, DmaPermissions, DmaTransferState,
    GpuBoundsChecker, LifetimeBound, LinearBuffer, OwnershipToken, PagePermissions, Shape1D, Shape2D, TensorError,
    TensorView, UnifiedVirtualMemory, UvmMigrationPolicy, TENSOR_BASE,
};

#[test]
fn ownership_tokens_split() {
    let mut next = 10u64;
    let t = OwnershipToken::new(&mut next, 0x1000..0x3000, LifetimeBound::Static);
    assert_eq!(next, 11);
    assert!(t.is_valid());
    let t = t.transfer();
    let t = match t.split_at(0x1000) {
        Err(TensorError::InvalidSplit) => OwnershipToken::new(&mut next, 0x1000..0x3000, LifetimeBound::Static),
        _ => panic!("a split at the start is invalid"),
    };
    let (left, right) = t.split_at(0x2000).unwrap();
    assert!(left.is_valid() && right.is_valid());
    assert!(matches!(right.split_at(0x3000), Err(TensorError::InvalidSplit)));
}

#[test]
fn canaries_by_generation() {
    let mut c = CanaryManager { generation: 2, seed: [0; 32] };
    let k = c.generate_canaries();
    assert_eq!(k.prefix_canary, 2 * 0xDEADBEEF);
    assert_eq!(k.suffix_canary, 2 * 0xCAFEBABE);
    assert_eq!(k.expected_prefix, k.prefix_canary);
    assert_eq!(c.generation, 3);
}

#[test]
fn bounds_checker_with_intact_canaries() {
    let mut b = GpuBoundsChecker::new();
    assert_eq!(b.validate_range(0, 100), Ok(()));
    assert_eq!(b.register_gpu_region(DeviceId::GPU(0), 0x1000..0x2000, Some(3)), Ok(()));
    assert_eq!(b.validate_range(0x1800, 0x2800), Ok(()));
}

#[test]
fn unified_memory_faults() {
    let mut u = UnifiedVirtualMemory::new(UvmMigrationPolicy::LazyMigration);
    let perms = PagePermissions { read: true, write: true, execute: false, user: false };
    assert_eq!(u.handle_page_fault(0x5123, DeviceId::CPU), Err(DmaError::PageNotMapped));
    assert_eq!(u.map_page(0x5000, 0x9_0000, perms), Ok(()));
    assert_eq!(u.handle_page_fault(0x5123, DeviceId::NeuralEngine(0)), Ok(0x9_0123));
    assert_eq!(u.handle_page_fault(0x5FFF, DeviceId::GPU(1)), Ok(0x9_0FFF));
    assert_eq!(u.handle_page_fault(0x6000, DeviceId::CPU), Err(DmaError::PageNotMapped));
}

#[test]
fn linear_buffer_access() {
    let mut next = 0u64;
    let mut buf = LinearBuffer::new(&mut next, vec![1u32, 2, 3, 4], 0x10_000, 0x20_000, 4, LifetimeBound::Static).unwrap();
    assert_eq!(buf.len(), 4);
    assert_eq!(buf.physical_addr(), 0x20_000);
    assert_eq!(buf.virtual_addr(), 0x10_000);
    assert!(buf.is_accessible());
    assert_eq!(buf.get(2), Some(&3));
    assert_eq!(buf.get(4), None);
    assert!(buf.get_mut(1, 20));
    assert!(!buf.get_mut(9, 0));
    let slice = buf.verified_slice(1, 3, 4).unwrap();
    assert_eq!(slice.len(), 2);
    assert_eq!(slice.get(0), Some(&20));
    assert_eq!(slice.physical_addr(), 0x20_004);
    assert!(matches!(slice.verified_slice(0, 5, 4), Err(TensorError::IndexOutOfBounds)));
}

#[test]
fn dma_transfers() {
    let mut next = 0u64;
    let view = TensorView::new(&mut next, vec![0u8; 64], 0x1000, 0x4000, Shape1D { dim0: 64 }, 1, LifetimeBound::Static).unwrap();
    let mut dma = AIDmaManager::new();
    let id = dma.dma_transfer_tensor(&view, DeviceId::NeuralEngine(0), 1).unwrap();
    assert_eq!(dma.get_transfer_status(id), Some(DmaTransferState::Pending));
    assert_eq!(dma.wait_for_completion(id), Ok(()));
    assert_eq!(dma.get_transfer_status(id), Some(DmaTransferState::Completed));
    let other = sis_kernel::kernel::ai_memory_safety::DmaTransferId(999);
    assert_eq!(dma.wait_for_completion(other), Err(DmaError::InvalidTransferId));
    assert_eq!(dma.get_transfer_status(other), None);
    assert_eq!(dma.register_gpu_region(DeviceId::GPU(0), 0x4000..0x5000, None), Ok(()));
    assert!(DmaPermissions::read_write().read && !DmaPermissions::read_write().execute);
    assert!(!DmaPermissions::read_only().write);
    assert!(!DmaPermissions::write_only().read);
}

#[test]
fn tensor_pools_bump_allocate() {
    let mut a = AIMemoryAllocator::new();
    let b1 = a.allocate_block(DeviceId::GPU(0), 4096).unwrap();
    assert_eq!(b1.physical_addr, TENSOR_BASE);
    assert_eq!(b1.size, 4096);
    let b2 = a.allocate_block(DeviceId::GPU(0), 100).unwrap();
    assert_eq!(b2.physical_addr, TENSOR_BASE + 4096);
    // Each device has a pool of its own.
    let c1 = a.allocate_block(DeviceId::CPU, 8).unwrap();
    assert_eq!(c1.physical_addr, TENSOR_BASE);
    assert!(matches!(a.allocate_block(DeviceId::CPU, 1 << 30), Err(DmaError::HardwareError)));
    let _ = a.dma_manager();
}

#[test]
fn tensor_view_row_major_indexing() {
    let mut next = 0u64;
    let mut view =
        TensorView::new(&mut next, vec![0u32, 1, 2, 3, 4, 5], 0x1000, 0x4000, Shape2D { dim0: 2, dim1: 3 }, 4, LifetimeBound::Static)
            .unwrap();
    assert_eq!(view.get(&[1, 2]), Some(&5));
    assert_eq!(view.get(&[0, 1]), Some(&1));
    assert_eq!(view.get(&[]), None);
    assert_eq!(view.get(&[2, 0]), None);
    assert!(view.get_mut(&[1, 0], 30));
    assert_eq!(view.get(&[1, 0]), Some(&30));
}
