use sis_kernel::arch::x86_64::host_memory::X86MemoryAllocator;
use sis_kernel::kernel::ai::memory_pool::{
    allocate_ai_buffer, deallocate_ai_buffer, get_memory_stats, init, is_memory_pressure, AIMemoryManager,
    PoolSizeClass, POOL_SIZE_HUGE, POOL_SIZE_MEDIUM, POOL_SIZE_SMALL,
};

#[test]
fn oversized_request_is_refused() {
    let mut m = AIMemoryManager::new();
    let r = m.allocate(POOL_SIZE_HUGE + 1);
    assert!(matches!(r, Err("Requested size exceeds largest buffer class")));
    assert_eq!(m.get_stats().total_memory_usage, 0);
    let b = m.allocate(POOL_SIZE_HUGE).unwrap();
    assert!(b.size() >= POOL_SIZE_HUGE);
}

#[test]
fn size_classes() {
    assert_eq!(PoolSizeClass::from_size(1), PoolSizeClass::Small);
    assert_eq!(PoolSizeClass::from_size(4096), PoolSizeClass::Small);
    assert_eq!(PoolSizeClass::from_size(4097), PoolSizeClass::Medium);
    assert_eq!(PoolSizeClass::from_size(1 << 20), PoolSizeClass::Large);
    assert_eq!(PoolSizeClass::from_size((1 << 20) + 1), PoolSizeClass::Huge);
    assert_eq!(PoolSizeClass::Medium.buffer_size(), POOL_SIZE_MEDIUM);
}

#[test]
fn allocate_and_return_buffers() {
    let mut m = AIMemoryManager::new();
    let mut b = m.allocate(100).unwrap();
    assert_eq!(b.size_class(), PoolSizeClass::Small);
    assert_eq!(b.size(), POOL_SIZE_SMALL);
    assert!(b.as_ptr().iter().all(|x| *x == 0));
    b.as_mut_ptr()[0] = 9;
    assert_eq!(b.ref_count(), 1);
    let stats = m.get_stats();
    assert_eq!(stats.total_memory_usage, POOL_SIZE_SMALL as u64);
    assert!(!stats.is_pressure);
    // A shared buffer cannot go back.
    assert_eq!(b.add_ref(), 1);
    assert_eq!(b.ref_count(), 2);
    let mut shared = b;
    assert_eq!(shared.release(), 1);
    assert_eq!(m.deallocate(shared), Ok(()));
    let stats = m.get_stats();
    assert_eq!(stats.total_memory_usage, 0);
    assert_eq!(stats.pool_stats[0].available_count, 1);
    // The pooled buffer is handed out again.
    let again = m.allocate(10).unwrap();
    assert_eq!(again.size(), POOL_SIZE_SMALL);
    assert_eq!(m.get_stats().pool_stats[0].available_count, 0);
}

#[test]
fn shared_buffer_is_refused() {
    let mut m = AIMemoryManager::new();
    let mut b = m.allocate(5000).unwrap();
    assert_eq!(b.size_class(), PoolSizeClass::Medium);
    b.add_ref();
    assert!(m.deallocate(b).is_err());
}

#[test]
fn global_manager_functions() {
    let mut g: Option<AIMemoryManager> = None;
    assert!(allocate_ai_buffer(&mut g, 10).is_err());
    assert!(is_memory_pressure(&g).is_err());
    assert!(get_memory_stats(&g).is_err());
    assert_eq!(init(&mut g), Ok(()));
    let b = allocate_ai_buffer(&mut g, 10).unwrap();
    assert_eq!(is_memory_pressure(&g), Ok(false));
    assert_eq!(deallocate_ai_buffer(&mut g, b), Ok(()));
    assert_eq!(get_memory_stats(&g).unwrap().total_memory_usage, 0);
}

#[test]
fn host_tensor_accounting() {
    let mut a = X86MemoryAllocator::new();
    assert!(a.allocate_tensor(0).is_err());
    let t = a.allocate_tensor(256).unwrap();
    assert_eq!(t.size(), 256);
    assert_eq!(t.as_slice().len(), 256);
    assert!(t.as_slice().iter().all(|b| *b == 0));
    let mut t = t;
    t.as_mut_slice()[3] = 9;
    assert_eq!(t.as_slice()[3], 9);
    a.free_tensor(t);
}
