//! A FIFO queue of groups of page frames waiting to be mapped.
use std::collections::VecDeque;
use vstd::prelude::*;

verus! {

/// A group of contiguous page frames.
#[derive(Clone, Copy, PartialEq, Eq, Structural, Debug)]
pub struct FrameInfo {
    /// First physical page of the group.
    pub ppn: usize,
    /// Virtual page the group is meant to map.
    pub vpn: usize,
    /// Page-table level of the allocation.
    pub level: usize,
    /// Number of frames.
    pub count: usize,
}

/// Frame groups in the order they were queued.
pub struct FrameQueue {
    frames: VecDeque<FrameInfo>,
}

impl View for FrameQueue {
    type V = Seq<FrameInfo>;

    closed spec fn view(&self) -> Seq<FrameInfo> {
        self.frames@
    }
}

impl FrameQueue {
    /// An empty queue.
    pub fn new() -> (r: Self)
        ensures
            r@ == Seq::<FrameInfo>::empty(),
    {
        FrameQueue { frames: VecDeque::new() }
    }

    /// Queues a group of frames; the queue takes it over.
    pub fn push(&mut self, info: FrameInfo)
        ensures
            final(self)@ == old(self)@.push(info),
    {
        self.frames.push_back(info);
    }

    /// Takes the group queued first, if any.
    pub fn pop(&mut self) -> (r: Option<FrameInfo>)
        ensures
            old(self)@.len() == 0 ==> r is None && final(self)@ == old(self)@,
            old(self)@.len() > 0 ==> r == Some(old(self)@[0]) && final(self)@ == old(self)@.drop_first(),
    {
        self.frames.pop_front()
    }
}

/// Groups leave the queue in the order they entered it: popping a queue
/// that had `q` before `info` was pushed returns the first of `q`, or `info`
/// when `q` was empty.
pub proof fn law_queue_fifo(q: Seq<FrameInfo>, info: FrameInfo)
    ensures
        q.len() > 0 ==> q.push(info)[0] == q[0] && q.push(info).drop_first() == q.drop_first().push(info),
        q.len() == 0 ==> q.push(info)[0] == info && q.push(info).drop_first() == Seq::<FrameInfo>::empty(),
{
    if q.len() > 0 {
        assert(q.push(info).drop_first() =~= q.drop_first().push(info));
    } else {
        assert(q.push(info).drop_first() =~= Seq::<FrameInfo>::empty());
    }
}

} // verus!
