use bump_allocator::{AllocError, EarlyAllocator};

type Early = EarlyAllocator<4096>;

fn fresh(start: usize, size: usize) -> Early {
    let mut a = Early::new();
    a.init(start, size);
    a
}

#[test]
fn early_init_accounting() {
    let a = fresh(0x1000, 0x1000);
    assert_eq!(a.total_bytes(), 0x1000);
    assert_eq!(a.used_bytes(), 0);
    assert_eq!(a.available_bytes(), 0x1000);
    assert_eq!(a.available_bytes() + a.used_bytes(), a.total_bytes());
    assert_eq!(a.byte_count(), 0x1000);
}

#[test]
fn early_alloc_rounds_up_to_alignment() {
    let mut a = fresh(0x1000, 0x1000);
    assert_eq!(a.alloc_bytes(64, 8), Ok(0x1000));
    assert_eq!(a.alloc_bytes(1, 1), Ok(0x1040));
    assert_eq!(a.alloc_bytes(8, 16), Ok(0x1050));
    assert_eq!(a.used_bytes(), 0x58);
    assert_eq!(a.byte_count(), 0x1003);
}

#[test]
fn early_alloc_out_of_memory() {
    let mut a = fresh(0x1000, 0x1000);
    assert_eq!(a.alloc_bytes(0x1001, 1), Err(AllocError::NoMemory));
    assert_eq!(a.used_bytes(), 0);
    assert_eq!(a.alloc_bytes(0x1000, 1), Ok(0x1000));
    assert_eq!(a.alloc_bytes(1, 1), Err(AllocError::NoMemory));
}

#[test]
fn early_alloc_alignment_overflow_is_out_of_memory() {
    let mut a = fresh(usize::MAX - 10, 10);
    assert_eq!(a.alloc_bytes(1, 1 << 20), Err(AllocError::NoMemory));
}

#[test]
fn early_bulk_reclaim_from_zero_count() {
    let mut a = Early::new();
    assert_eq!(a.add_memory(0, 0x1000), Ok(()));
    assert_eq!(a.byte_count(), 0);
    let p = a.alloc_bytes(16, 8).unwrap();
    let q = a.alloc_bytes(32, 8).unwrap();
    assert_eq!(a.byte_count(), 2);
    a.dealloc_bytes(p, 16);
    assert_eq!(a.used_bytes(), 48);
    a.dealloc_bytes(q, 32);
    assert_eq!(a.byte_count(), 0);
    assert_eq!(a.used_bytes(), 0);
    assert_eq!(a.alloc_bytes(8, 8), Ok(0));
}

#[test]
fn early_dealloc_at_zero_is_noop() {
    let mut a = Early::new();
    a.dealloc_bytes(0, 8);
    assert_eq!(a.byte_count(), 0);
    assert_eq!(a.used_bytes(), 0);
}

#[test]
fn early_counter_starts_at_region_size() {
    let mut a = fresh(0x1000, 0x1000);
    let p = a.alloc_bytes(64, 8).unwrap();
    a.dealloc_bytes(p, 64);
    assert_eq!(a.byte_count(), 0x1000);
    assert_eq!(a.used_bytes(), 64);
}

#[test]
fn early_alloc_pages_reduces_available_by_page() {
    let mut a = fresh(0x1000, 0x1000);
    let before = a.available_bytes();
    assert_eq!(a.alloc_pages(1, 4096), Ok(0x1000));
    assert_eq!(before - a.available_bytes(), 4096);
    assert_eq!(a.used_pages(), 1);
    assert_eq!(a.available_pages(), 0);
    assert_eq!(a.total_pages(), 1);
}

#[test]
fn early_alloc_pages_aligns_down() {
    let mut a = fresh(0x1000, 0x10000);
    assert_eq!(a.alloc_pages(1, 0x4000), Ok(0x10000));
    assert_eq!(a.alloc_pages(1, 0x8000), Ok(0x8000));
    assert_eq!(a.used_pages(), 9);
    assert_eq!(a.available_pages(), 7);
    assert_eq!(a.total_pages(), 16);
}

#[test]
fn early_alloc_pages_stays_between_cursors() {
    let mut a = fresh(0x1000, 0x4000);
    a.alloc_bytes(0x10, 1).unwrap();
    let r = a.alloc_pages(2, 4096).unwrap();
    assert!(r >= 0x1010 && r <= 0x5000);
    assert_eq!(r, 0x3000);
    assert_eq!(a.alloc_pages(2, 4096), Err(AllocError::NoMemory));
    assert_eq!(a.alloc_pages(1, 4096), Ok(0x2000));
    assert_eq!(a.alloc_pages(1, 4096), Err(AllocError::NoMemory));
}

#[test]
fn early_alloc_pages_invalid_alignment() {
    let mut a = fresh(0x1000, 0x10000);
    assert_eq!(a.alloc_pages(1, 100), Err(AllocError::InvalidParam));
    assert_eq!(a.alloc_pages(1, 3 * 4096), Err(AllocError::InvalidParam));
    assert_eq!(a.alloc_pages(1, 0), Err(AllocError::InvalidParam));
    assert_eq!(a.used_pages(), 0);
}

#[test]
fn early_alloc_pages_too_many() {
    let mut a = fresh(0x1000, 0x10000);
    assert_eq!(a.alloc_pages(0x11, 4096), Err(AllocError::NoMemory));
    assert_eq!(a.alloc_pages(usize::MAX, 4096), Err(AllocError::NoMemory));
    assert_eq!(a.alloc_pages(0x10, 4096), Ok(0x1000));
}

#[test]
fn early_page_counts_with_partial_pages() {
    let mut a = fresh(0x1000, 0x2800);
    assert_eq!(a.alloc_pages(1, 4096), Ok(0x2000));
    a.alloc_bytes(0x800, 1).unwrap();
    // total covers [0x1800, 0x3800), used [0x2000, 0x3800), available [0x1800, 0x2000)
    assert_eq!(a.total_pages(), 2);
    assert_eq!(a.used_pages(), 1);
    assert_eq!(a.available_pages(), 0);
}

#[test]
fn early_add_memory_contiguous() {
    let mut a = fresh(0x1000, 0x1000);
    assert_eq!(a.add_memory(0x2000, 0x1000), Ok(()));
    assert_eq!(a.total_bytes(), 0x2000);
    assert_eq!(a.available_bytes(), 0x2000);
}

#[test]
fn early_add_memory_non_contiguous() {
    let mut a = fresh(0x1000, 0x1000);
    a.alloc_bytes(0x10, 1).unwrap();
    assert_eq!(a.add_memory(0x3000, 0x1000), Err(AllocError::InvalidParam));
    assert_eq!(a.total_bytes(), 0x1000);
    assert_eq!(a.used_bytes(), 0x10);
    assert_eq!(a.available_bytes(), 0xff0);
    assert_eq!(a.total_pages(), 0);
}
