use sis_kernel::arch::aarch64::atomic_bitmap::{AllocError, AtomicBitmapAllocator, BitOps};

fn allocator(words: usize, pages: usize) -> AtomicBitmapAllocator {
    AtomicBitmapAllocator::new(vec![0u64; words], pages, 4096, 0x4000_0000).unwrap()
}

#[test]
fn single_pages_come_lowest_first() {
    let mut a = allocator(2, 128);
    let r0 = a.alloc_pages(1, 1).unwrap();
    let r1 = a.alloc_pages(1, 1).unwrap();
    assert_eq!(r0.start_page, 0);
    assert_eq!(r1.start_page, 1);
    assert_eq!(r1.phys_addr, 0x4000_0000 + 4096);
    assert_eq!(r1.size_bytes, 4096);
}

#[test]
fn aligned_run_spans_words() {
    let mut a = allocator(2, 128);
    let _ = a.alloc_pages(1, 1).unwrap();
    // 70 pages aligned to 2: first aligned free start is page 2, crossing into word 1.
    let r = a.alloc_pages(70, 2).unwrap();
    assert_eq!(r.start_page, 2);
    assert_eq!(r.page_count, 70);
    assert_eq!(r.size_bytes, 70 * 4096);
    let s = a.get_stats();
    assert_eq!(s.allocated_pages, 71);
    assert_eq!(s.free_pages, 57);
}

#[test]
fn alloc_then_free_restores_the_pages() {
    let mut a = allocator(1, 64);
    let before = a.get_stats();
    let r = a.alloc_pages(8, 8).unwrap();
    assert_eq!(a.get_stats().allocated_pages, 8);
    a.free_pages(&r).unwrap();
    let after = a.get_stats();
    assert_eq!(after.allocated_pages, before.allocated_pages);
    assert_eq!(after.free_pages, 64);
    // The same run is handed out again.
    assert_eq!(a.alloc_pages(8, 8).unwrap().start_page, r.start_page);
}

#[test]
fn invalid_requests_are_refused() {
    let mut a = allocator(1, 64);
    assert_eq!(a.alloc_pages(0, 1), Err(AllocError::InvalidSize));
    assert_eq!(a.alloc_pages(65, 1), Err(AllocError::InvalidSize));
    assert_eq!(a.alloc_pages(2, 3), Err(AllocError::InvalidAlignment));
    assert_eq!(a.alloc_pages(2, 0), Err(AllocError::InvalidAlignment));
}

#[test]
fn exhausted_bitmap_is_out_of_memory() {
    let mut a = allocator(1, 4);
    assert!(a.alloc_pages(4, 1).is_ok());
    assert_eq!(a.alloc_pages(1, 1), Err(AllocError::OutOfMemory));
}

#[test]
fn short_bitmap_and_bad_page_size_are_refused() {
    assert_eq!(AtomicBitmapAllocator::new(vec![0u64; 1], 65, 4096, 0).err(), Some(AllocError::InternalError));
    assert_eq!(AtomicBitmapAllocator::new(vec![0u64; 1], 64, 3000, 0).err(), Some(AllocError::InvalidAlignment));
}

#[test]
fn bit_helpers() {
    assert_eq!(BitOps::create_mask(4, 3), 0b111_0000);
    assert_eq!(BitOps::create_mask(62, 3), 0);
    assert_eq!(BitOps::find_run_in_word(0b1011, 2), Some(4));
    assert_eq!(BitOps::find_run_in_word(u64::MAX, 1), None);
    assert_eq!(BitOps::trailing_zeros(8), 3);
    assert_eq!(BitOps::leading_zeros(1), 63);
}
