use rcore_kernel::deque::{page_cap, Deque, FrameAllocator};
use rcore_kernel::frame_queue::{FrameInfo, FrameQueue};
use rcore_kernel::idx_alloc::AllocError;
use rcore_kernel::sync::{Condvar, Semaphore};
use rcore_kernel::manager::ThreadManager;
use rcore_kernel::manager::ProcManager;

/// Hands out page numbers from a fixed supply and records what comes back.
struct Frames {
    next: usize,
    left: usize,
    returned: Vec<usize>,
}

impl Frames {
    fn with(left: usize) -> Self {
        Frames { next: 100, left, returned: Vec::new() }
    }
}

impl FrameAllocator for Frames {
    fn allocate_one(&mut self) -> Result<usize, AllocError> {
        if self.left == 0 {
            return Err(AllocError::Failed);
        }
        self.left -= 1;
        self.next += 1;
        Ok(self.next - 1)
    }

    fn deallocate(&mut self, range: core::ops::Range<usize>) {
        for p in range {
            self.returned.push(p);
            self.left += 1;
        }
    }
}

#[test]
fn page_capacity_of_words_on_4k_pages() {
    assert_eq!(page_cap(12, 8, 8, 8), 510);
    assert_eq!(page_cap(12, 1, 1, 8), 4080);
    assert_eq!(page_cap(12, 12, 4, 8), 340);
    assert_eq!(page_cap(12, 16, 16, 8), 255);
}

#[test]
fn deque_back_in_front_out_across_pages() {
    let mut q: Deque<u32, Frames> = Deque::new(Frames::with(8), 3);
    assert!(q.is_empty());
    for i in 0..7 {
        assert_eq!(q.push_back(i), Ok(()));
        assert_eq!(q.len(), i as usize + 1);
    }
    for i in 0..7 {
        assert_eq!(q.pop_front(), Some(i));
    }
    assert_eq!(q.pop_front(), None);
    assert!(q.is_empty());
    assert_eq!(q.len(), 0);
}

#[test]
fn deque_front_in_back_out() {
    let mut q: Deque<u32, Frames> = Deque::new(Frames::with(8), 2);
    for i in 0..5 {
        assert_eq!(q.push_front(i), Ok(()));
    }
    assert_eq!(q.len(), 5);
    for i in 0..5 {
        assert_eq!(q.pop_back(), Some(i));
    }
    assert_eq!(q.pop_back(), None);
}

#[test]
fn deque_mixed_ends_keep_order() {
    let mut q: Deque<i64, Frames> = Deque::new(Frames::with(8), 2);
    q.push_back(2).unwrap();
    q.push_front(1).unwrap();
    q.push_back(3).unwrap();
    q.push_front(0).unwrap();
    q.push_back(4).unwrap();
    assert_eq!(q.len(), 5);
    assert_eq!(q.pop_front(), Some(0));
    assert_eq!(q.pop_back(), Some(4));
    assert_eq!(q.pop_back(), Some(3));
    assert_eq!(q.pop_front(), Some(1));
    assert_eq!(q.pop_front(), Some(2));
    assert!(q.is_empty());
}

#[test]
fn deque_reports_allocation_failure_and_stays_intact() {
    let mut q: Deque<u8, Frames> = Deque::new(Frames::with(1), 2);
    assert_eq!(q.push_back(1), Ok(()));
    assert_eq!(q.push_back(2), Ok(()));
    assert_eq!(q.push_back(3), Err(AllocError::Failed));
    assert_eq!(q.len(), 2);
    assert_eq!(q.pop_front(), Some(1));
    assert_eq!(q.pop_front(), Some(2));
    assert_eq!(q.push_front(9), Ok(()));
    assert_eq!(q.pop_back(), Some(9));
}

#[test]
fn deque_returns_emptied_pages() {
    let mut q: Deque<u16, Frames> = Deque::new(Frames::with(2), 2);
    for i in 0..4 {
        q.push_back(i).unwrap();
    }
    assert_eq!(q.push_back(4), Err(AllocError::Failed));
    assert_eq!(q.pop_front(), Some(0));
    assert_eq!(q.push_back(4), Err(AllocError::Failed));
    assert_eq!(q.pop_front(), Some(1));
    assert_eq!(q.push_back(4), Ok(()));
    q.release();
    assert!(q.is_empty());
    assert_eq!(q.push_back(7), Ok(()));
    assert_eq!(q.push_back(8), Ok(()));
    assert_eq!(q.push_back(9), Ok(()));
    assert_eq!(q.pop_back(), Some(9));
}

#[test]
fn frame_queue_is_fifo() {
    let mut q = FrameQueue::new();
    let a = FrameInfo { ppn: 1, vpn: 2, level: 0, count: 1 };
    let b = FrameInfo { ppn: 9, vpn: 8, level: 1, count: 512 };
    q.push(a);
    q.push(b);
    assert_eq!(q.pop(), Some(a));
    assert_eq!(q.pop(), Some(b));
    assert_eq!(q.pop(), None);
}

#[test]
fn semaphore_blocks_when_empty_and_wakes_in_order() {
    let mut s = Semaphore::new(1);
    assert!(s.down(10));
    assert!(!s.down(11));
    assert!(!s.down(12));
    assert_eq!(s.inner.count, -2);
    assert_eq!(s.up(), Some(11));
    assert_eq!(s.up(), Some(12));
    assert_eq!(s.up(), None);
    assert_eq!(s.inner.count, 1);
}

#[test]
fn condvar_wakes_longest_waiter() {
    let mut c = Condvar::new();
    assert_eq!(c.signal(), None);
    assert!(!c.wait_no_sched(3));
    assert!(!c.wait_no_sched(4));
    assert_eq!(c.signal(), Some(3));
    assert_eq!(c.signal(), Some(4));
    assert_eq!(c.signal(), None);
}

#[test]
fn thread_manager_keeps_tasks_and_serves_in_order() {
    let mut m: ThreadManager<&str> = ThreadManager::new();
    m.insert(1, "one");
    m.insert(2, "two");
    assert_eq!(m.get(1), Some(&"one"));
    m.insert(1, "uno");
    assert_eq!(m.get(1), Some(&"uno"));
    m.add(2);
    m.add(1);
    assert_eq!(m.fetch(), Some(2));
    assert_eq!(m.fetch(), Some(1));
    assert_eq!(m.fetch(), None);
    m.delete(2);
    assert_eq!(m.get(2), None);
    assert_eq!(m.get(1), Some(&"uno"));
}

#[test]
fn proc_manager_by_number() {
    let mut m: ProcManager<u32> = ProcManager::new();
    assert_eq!(m.get(5), None);
    m.insert(5, 50);
    assert_eq!(m.get(5), Some(&50));
    m.delete(5);
    m.delete(6);
    assert_eq!(m.get(5), None);
}

#[test]
fn deque_push_on_passes_the_allocator_answer() {
    let mut q: Deque<u32, Frames> = Deque::new(Frames::with(0), 2);
    assert_eq!(q.push_back_on(1, Err(AllocError::Failed)), Err(AllocError::Failed));
    assert!(q.is_empty());
    assert_eq!(q.push_back_on(1, Ok(42)), Ok(()));
    assert_eq!(q.push_back(2), Ok(()));
    assert_eq!(q.push_front_on(0, Err(AllocError::Unsupported)), Err(AllocError::Unsupported));
    assert_eq!(q.len(), 2);
    assert_eq!(q.push_front_on(0, Ok(43)), Ok(()));
    assert_eq!(q.len(), 3);
    assert_eq!(q.pop_front(), Some(0));
    assert_eq!(q.pop_front(), Some(1));
    assert_eq!(q.pop_front(), Some(2));
    assert!(q.is_empty());
}

#[test]
fn deque_front_page_comes_back_on_pop_and_empty_pops_give_nothing() {
    let mut q: Deque<u32, Frames> = Deque::new(Frames::with(1), 2);
    assert_eq!(q.pop_front(), None);
    assert_eq!(q.pop_back(), None);
    assert_eq!(q.push_front(5), Ok(()));
    assert_eq!(q.push_front(6), Ok(()));
    assert_eq!(q.push_front(7), Err(AllocError::Failed));
    assert_eq!(q.pop_front(), Some(6));
    assert_eq!(q.pop_front(), Some(5));
    assert!(q.is_empty());
    assert_eq!(q.push_front(8), Ok(()));
    assert_eq!(q.pop_front(), Some(8));
    assert_eq!(q.pop_front(), None);
}
