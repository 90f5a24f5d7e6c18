use bump_allocator::{AllocError, LabByteAllocator, Placement, SizeClass};

fn fresh(start: usize, size: usize) -> LabByteAllocator {
    let mut a = LabByteAllocator::new();
    a.init(start, size);
    a
}

#[test]
fn lab_init_accounting() {
    let a = fresh(0, 0x1000);
    assert_eq!(a.available_bytes(), 0x1000);
    assert_eq!(a.used_bytes(), 0);
    assert_eq!(a.available_bytes() + a.used_bytes(), a.total_bytes());
}

#[test]
fn lab_total_bytes_is_fixed() {
    let a = fresh(0x1000, 0x200000);
    assert_eq!(a.total_bytes(), 0x1000);
    assert_eq!(a.available_bytes(), 0x200000);
}

#[test]
fn lab_small_region_refuses_arena_requests() {
    let mut a = fresh(0x1000, 0x1000);
    assert_eq!(a.alloc_bytes(64, 1), Err(AllocError::NoMemory));
    assert_eq!(a.alloc_bytes(64, 1), Err(AllocError::NoMemory));
    assert_eq!(a.available_bytes(), 0x1000);
    assert_eq!(a.count(), 0);
}

#[test]
fn lab_alternates_ends() {
    let mut a = fresh(0x10000, 0x200000);
    let end = 0x210000;
    assert_eq!(a.alloc_bytes(64, 1), Ok(Placement::Arena(end - 64)));
    assert_eq!(a.alloc_bytes(64, 1), Ok(Placement::Arena(0x10000)));
    assert_eq!(a.alloc_bytes(64, 1), Ok(Placement::Arena(end - 128)));
    assert_eq!(a.alloc_bytes(64, 1), Ok(Placement::Arena(0x10040)));
    assert_eq!(a.used_bytes(), 256);
    assert_eq!(a.available_bytes(), 0x200000 - 256);
    assert_eq!(a.count(), 4);
}

#[test]
fn lab_arena_open_once_high_cursor_moved() {
    let mut a = fresh(0x10000, 0x200000);
    a.alloc_bytes(0x100000, 1).unwrap();
    // high cursor is off the end: the headroom rule no longer applies
    assert_eq!(a.alloc_bytes(0x10, 1), Ok(Placement::Arena(0x10000)));
    assert_eq!(a.alloc_bytes(0x10, 1), Ok(Placement::Arena(0x110000 - 0x10)));
}

#[test]
fn lab_same_class_same_buffer() {
    let mut a = fresh(0x10000, 0x200000);
    let used = a.used_bytes();
    for _ in 0..5 {
        assert_eq!(a.alloc_bytes(96, 8), Ok(Placement::Class(SizeClass::Bytes96)));
    }
    assert_eq!(a.used_bytes(), used);
    assert_eq!(a.available_bytes(), 0x200000);
    assert_eq!(a.count(), 0);
}

#[test]
fn lab_size_classes() {
    let mut a = fresh(0x10000, 0x200000);
    assert_eq!(a.alloc_bytes(192, 8), Ok(Placement::Class(SizeClass::Bytes192)));
    assert_eq!(a.alloc_bytes(384, 16), Ok(Placement::Class(SizeClass::Bytes384)));
    assert_eq!(a.alloc_bytes(100, 8), Ok(Placement::Class(SizeClass::Bulk)));
    assert_eq!(a.alloc_bytes(4, 4), Ok(Placement::Class(SizeClass::Bulk)));
    assert_eq!(a.alloc_bytes(4096, 4096), Ok(Placement::Class(SizeClass::Bulk)));
    assert_eq!(SizeClass::Bytes96.capacity(), 96);
    assert_eq!(SizeClass::Bytes192.capacity(), 192);
    assert_eq!(SizeClass::Bytes384.capacity(), 384);
    assert_eq!(SizeClass::Bulk.capacity(), 86016);
}

#[test]
fn lab_dealloc_high_resets_counter() {
    let mut a = fresh(0x10000, 0x200000);
    let end = 0x210000;
    a.alloc_bytes(64, 1).unwrap();
    a.alloc_bytes(32, 1).unwrap();
    assert_eq!(a.count(), 2);
    a.dealloc_bytes(end - 64, 64, 1);
    assert_eq!(a.count(), 0);
    assert_eq!(a.used_bytes(), 32);
    // even counter again: the next request comes from the high end
    assert_eq!(a.alloc_bytes(16, 1), Ok(Placement::Arena(end - 16)));
}

#[test]
fn lab_dealloc_low_retreats() {
    let mut a = fresh(0x10000, 0x200000);
    a.alloc_bytes(64, 1).unwrap();
    a.alloc_bytes(32, 1).unwrap();
    a.dealloc_bytes(0x10000, 32, 1);
    assert_eq!(a.used_bytes(), 64);
    assert_eq!(a.count(), 2);
}

#[test]
fn lab_dealloc_elsewhere_ignored() {
    let mut a = fresh(0x10000, 0x200000);
    a.alloc_bytes(64, 1).unwrap();
    a.alloc_bytes(32, 1).unwrap();
    a.dealloc_bytes(0x50000, 32, 1);
    a.dealloc_bytes(0x210000 - 64, 64, 8);
    assert_eq!(a.used_bytes(), 96);
    assert_eq!(a.count(), 2);
}

#[test]
fn lab_add_memory_contiguous() {
    let mut a = fresh(0x10000, 0x1000);
    assert_eq!(a.add_memory(0x11000, 0x200000), Ok(()));
    assert_eq!(a.available_bytes(), 0x201000);
    assert_eq!(a.alloc_bytes(8, 1), Ok(Placement::Arena(0x211000 - 8)));
}

#[test]
fn lab_add_memory_non_contiguous() {
    let mut a = fresh(0x10000, 0x1000);
    assert_eq!(a.add_memory(0x20000, 0x1000), Err(AllocError::InvalidParam));
    assert_eq!(a.available_bytes(), 0x1000);
    assert_eq!(a.used_bytes(), 0);
}

#[test]
fn lab_precondition_checks() {
    let mut a = fresh(0x10000, 0x200000);
    assert!(!a.arena_refuses());
    assert!(a.request_fits(64, 1));
    assert!(!a.request_fits(0x200000, 1));
    assert!(a.request_fits(0x200000, 8));
    assert!(a.extension_fits(0x210000, 0x1000));
    assert!(a.extension_fits(0x20000, 0x1000));
    a.alloc_bytes(64, 1).unwrap();
    assert!(!a.extension_fits(0x210000, 0x1000));
    assert!(a.release_fits(0x210000 - 64, 64, 1));
    assert!(!a.release_fits(0x210000 - 64, 65, 1));
    assert!(a.release_fits(0x210000 - 64, 65, 8));
    let small = fresh(0x1000, 0x1000);
    assert!(small.arena_refuses());
    assert!(small.request_fits(0x5000, 1));
}
