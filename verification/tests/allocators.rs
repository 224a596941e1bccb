use rcore_kernel::bitmap_alloc::NaiveBitmapIdxAllocator;
use rcore_kernel::idx_alloc::{AllocError, IdxAllocator};
use rcore_kernel::recycle_alloc::RecycleAllocator;

#[test]
fn recycle_hands_out_fresh_ids_in_order() {
    let mut a = RecycleAllocator::new();
    assert_eq!(a.alloc_id(), 0);
    assert_eq!(a.alloc_id(), 1);
    assert_eq!(a.alloc_id(), 2);
}

#[test]
fn recycle_reuses_most_recently_returned_id() {
    let mut a = RecycleAllocator::new();
    for _ in 0..4 {
        a.alloc_id();
    }
    a.dealloc(1);
    a.dealloc(3);
    assert_eq!(a.alloc_id(), 3);
    assert_eq!(a.alloc_id(), 1);
    assert_eq!(a.alloc_id(), 4);
}

#[test]
fn bitmap_allocates_lowest_free_index() {
    let mut a = NaiveBitmapIdxAllocator::<2>::new();
    assert_eq!(a.allocate(1, 1), Ok(0));
    assert_eq!(a.allocate(1, 1), Ok(1));
    assert_eq!(a.allocate(1, 1), Ok(2));
}

#[test]
fn bitmap_rejects_unsupported_requests() {
    let mut a = NaiveBitmapIdxAllocator::<1>::new();
    assert_eq!(a.allocate(2, 1), Err(AllocError::Unsupported));
    assert_eq!(a.allocate(1, 2), Err(AllocError::Unsupported));
    assert_eq!(a.allocate_fixed(0, 1), Err(AllocError::Unsupported));
}

#[test]
fn bitmap_fails_when_full_and_reuses_released_index() {
    let mut a = NaiveBitmapIdxAllocator::<1>::new();
    for i in 0..32 {
        assert_eq!(a.allocate(1, 1), Ok(i));
    }
    assert_eq!(a.allocate(1, 1), Err(AllocError::Failed));
    a.deallocate(7, 1);
    assert_eq!(a.allocate(1, 1), Ok(7));
    assert_eq!(a.allocate(1, 1), Err(AllocError::Failed));
}

#[test]
fn bitmap_moves_to_next_group_and_hint_follows_release() {
    let mut a = NaiveBitmapIdxAllocator::<3>::new();
    for i in 0..32 {
        assert_eq!(a.allocate(1, 1), Ok(i));
    }
    assert_eq!(a.allocate(1, 1), Ok(32));
    a.deallocate(3, 2);
    assert_eq!(a.allocate(1, 1), Ok(3));
    assert_eq!(a.allocate(1, 1), Ok(4));
    assert_eq!(a.allocate(1, 1), Ok(33));
}

#[test]
fn bitmap_with_no_groups_always_fails() {
    let mut a = NaiveBitmapIdxAllocator::<0>::new();
    assert_eq!(a.allocate(1, 1), Err(AllocError::Failed));
}
