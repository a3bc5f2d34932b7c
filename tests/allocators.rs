use kfs::allocator::{Allocator, OutOfMemory};
use kfs::init_allocator::InitAllocator;

#[test]
fn scenario_frames_come_back_in_reverse_order() {
    let mut alloc = Allocator::new(vec![0; 3]);
    alloc.deallocate(0x100000);
    alloc.deallocate(0x101000);
    alloc.deallocate(0x102000);
    assert_eq!(alloc.allocate(), Ok(0x102000));
    assert_eq!(alloc.allocate(), Ok(0x101000));
    assert_eq!(alloc.allocate(), Ok(0x100000));
    assert_eq!(alloc.allocate(), Err(OutOfMemory));
}

#[test]
fn last_freed_is_first_out() {
    let mut alloc = Allocator::new(vec![0; 4]);
    alloc.deallocate(0x5000);
    alloc.deallocate(0x7000);
    assert_eq!(alloc.allocate(), Ok(0x7000));
    alloc.deallocate(0x9000);
    assert_eq!(alloc.allocate(), Ok(0x9000));
    assert_eq!(alloc.allocate(), Ok(0x5000));
    assert_eq!(alloc.allocate(), Err(OutOfMemory));
}

#[test]
fn remaining_memory_counts_free_frames() {
    let mut alloc = Allocator::new(vec![0; 8]);
    assert_eq!(alloc.remaining_memory(), 0);
    alloc.deallocate(0x1000);
    alloc.deallocate(0x2000);
    assert_eq!(alloc.remaining_memory(), 0x2000);
    let _ = alloc.allocate();
    assert_eq!(alloc.remaining_memory(), 0x1000);
    assert_eq!(OutOfMemory.message(), "out of memory");
}

#[test]
fn bump_allocations_move_down_and_stay_aligned() {
    let mut a = InitAllocator::new(0x10_0000, 0x20_0000);
    let mut last_top = a.top();
    let requests = [(100usize, 8usize), (4096, 4096), (1, 1), (3000, 16), (4096, 4096)];
    for (size, align) in requests {
        let addr = a.try_allocate_raw(size, align).unwrap();
        assert!(addr >= a.base() && addr < 0x20_0000);
        assert_eq!(addr % align, 0);
        assert!(a.top() <= last_top);
        assert_eq!(a.top(), addr);
        last_top = a.top();
    }
    assert_eq!(a.base(), 0x10_0000);
}

#[test]
fn bump_subtracts_then_aligns() {
    let mut a = InitAllocator::new(0x1000, 0x10_0010);
    assert_eq!(a.try_allocate_raw(0x10, 0x1000), Ok(0x10_0000));
    assert_eq!(a.try_allocate_raw(1, 0x1000), Ok(0xF_F000));
    assert_eq!(a.allocate_raw(8, 8), 0xF_EFF8);
}

#[test]
fn bump_exhaustion_keeps_top() {
    let mut a = InitAllocator::new(0x1000, 0x3000);
    assert_eq!(a.try_allocate_raw(0x3000, 1), Err(OutOfMemory));
    assert_eq!(a.top(), 0x3000);
    assert_eq!(a.try_allocate_raw(0x2001, 0x1000), Err(OutOfMemory));
    assert_eq!(a.top(), 0x3000);
    assert_eq!(a.try_allocate_raw(0x2000, 0x1000), Ok(0x1000));
    assert_eq!(a.try_allocate_raw(1, 1), Err(OutOfMemory));
    assert_eq!(a.top(), 0x1000);
}

#[test]
fn bump_typed_allocations() {
    let mut a = InitAllocator::new(0x1000, 0x2000);
    let one = a.allocate::<u64>();
    assert_eq!(one, 0x1FF8);
    let many = a.allocate_slice::<u32>(4);
    assert_eq!(many, 0x1FE8);
}
