//! Semaphores and condition variables with FIFO queues of blocked threads,
//! threads being named by their numbers.
use std::collections::VecDeque;
use vstd::prelude::*;

verus! {

/// The state of a semaphore.
pub struct SemaphoreInner {
    /// Available resources; when negative, minus the number of blocked threads.
    pub count: isize,
    /// Threads blocked on the semaphore, longest waiting first.
    pub wait_queue: VecDeque<usize>,
}

/// A counting semaphore.
pub struct Semaphore {
    /// The semaphore's state.
    pub inner: SemaphoreInner,
}

impl Semaphore {
    /// Exactly the threads the count says are missing a resource wait.
    pub open spec fn wf(&self) -> bool {
        self.inner.wait_queue@.len() == (if self.inner.count < 0 { -self.inner.count } else { 0 })
    }

    /// The count.
    pub open spec fn count(&self) -> int {
        self.inner.count as int
    }

    /// The blocked threads, longest waiting first.
    pub open spec fn waiters(&self) -> Seq<usize> {
        self.inner.wait_queue@
    }

    /// A semaphore holding `res_count` resources and no waiting thread.
    pub fn new(res_count: usize) -> (r: Self)
        requires
            res_count <= isize::MAX,
        ensures
            r.wf(),
            r.count() == res_count,
            r.waiters() == Seq::<usize>::empty(),
    {
        Self { inner: SemaphoreInner { count: res_count as isize, wait_queue: VecDeque::new() } }
    }

    /// Gives back one resource and wakes the thread that has waited longest,
    /// if any; returns that thread.
    pub fn up(&mut self) -> (woken: Option<usize>)
        requires
            old(self).wf(),
            old(self).count() < isize::MAX,
        ensures
            final(self).wf(),
            final(self).count() == old(self).count() + 1,
            old(self).waiters().len() == 0 ==> woken is None && final(self).waiters()
                == old(self).waiters(),
            old(self).waiters().len() > 0 ==> woken == Some(old(self).waiters()[0])
                && final(self).waiters() == old(self).waiters().drop_first(),
    {
        self.inner.count = self.inner.count + 1;
        self.inner.wait_queue.pop_front()
    }

    /// Takes one resource for thread `tid`; when none is left the thread is
    /// queued and the answer is `false`, meaning it must block.
    pub fn down(&mut self, tid: usize) -> (acquired: bool)
        requires
            old(self).wf(),
            old(self).count() > isize::MIN,
        ensures
            final(self).wf(),
            final(self).count() == old(self).count() - 1,
            acquired == (old(self).count() > 0),
            acquired ==> final(self).waiters() == old(self).waiters(),
            !acquired ==> final(self).waiters() == old(self).waiters().push(tid),
    {
        self.inner.count = self.inner.count - 1;
        if self.inner.count < 0 {
            self.inner.wait_queue.push_back(tid);
            false
        } else {
            true
        }
    }
}

/// The state of a condition variable.
pub struct CondvarInner {
    /// Threads blocked on the condition variable, longest waiting first.
    pub wait_queue: VecDeque<usize>,
}

/// A condition variable.
pub struct Condvar {
    /// The condition variable's state.
    pub inner: CondvarInner,
}

impl Condvar {
    /// The blocked threads, longest waiting first.
    pub open spec fn waiters(&self) -> Seq<usize> {
        self.inner.wait_queue@
    }

    /// A condition variable with no waiting thread.
    pub fn new() -> (r: Self)
        ensures
            r.waiters() == Seq::<usize>::empty(),
    {
        Self { inner: CondvarInner { wait_queue: VecDeque::new() } }
    }

    /// Wakes the thread that has waited longest, if any, and returns it.
    pub fn signal(&mut self) -> (woken: Option<usize>)
        ensures
            old(self).waiters().len() == 0 ==> woken is None && final(self).waiters()
                == old(self).waiters(),
            old(self).waiters().len() > 0 ==> woken == Some(old(self).waiters()[0])
                && final(self).waiters() == old(self).waiters().drop_first(),
    {
        self.inner.wait_queue.pop_front()
    }

    /// Queues thread `tid` on the condition variable; the answer `false`
    /// means that the thread must block.
    pub fn wait_no_sched(&mut self, tid: usize) -> (r: bool)
        ensures
            !r,
            final(self).waiters() == old(self).waiters().push(tid),
    {
        self.inner.wait_queue.push_back(tid);
        false
    }
}

} // verus!
