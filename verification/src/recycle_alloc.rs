//! An identifier allocator that hands out fresh numbers and reuses the
//! numbers given back to it, most recently returned first.
use vstd::prelude::*;

verus! {

/// Abstract state of a [`RecycleAllocator`]: the next fresh identifier and the
/// stack of identifiers given back.
pub struct RecycleState {
    pub current: usize,
    pub recycled: Seq<usize>,
}

impl RecycleState {
    /// Every recycled identifier was handed out before, and none is recycled twice.
    pub open spec fn wf(self) -> bool {
        &&& forall|i: int| 0 <= i < self.recycled.len() ==> (#[trigger] self.recycled[i]) < self.current
        &&& self.recycled.no_duplicates()
    }

    /// Identifiers currently held by users of the allocator.
    pub open spec fn in_use(self) -> Set<usize> {
        Set::new(|id: usize| id < self.current && !self.recycled.contains(id))
    }

    /// The identifier the next allocation returns.
    pub open spec fn next_id(self) -> usize {
        if self.recycled.len() > 0 {
            self.recycled.last()
        } else {
            self.current
        }
    }

    /// The state after one allocation.
    pub open spec fn after_alloc(self) -> RecycleState {
        if self.recycled.len() > 0 {
            RecycleState { current: self.current, recycled: self.recycled.drop_last() }
        } else {
            RecycleState { current: (self.current + 1) as usize, recycled: self.recycled }
        }
    }

    /// The state after giving back `id`.
    pub open spec fn after_dealloc(self, id: usize) -> RecycleState {
        RecycleState { current: self.current, recycled: self.recycled.push(id) }
    }
}

/// Allocator of process identifiers.
pub struct RecycleAllocator {
    current: usize,
    recycled: Vec<usize>,
}

impl View for RecycleAllocator {
    type V = RecycleState;

    closed spec fn view(&self) -> RecycleState {
        RecycleState { current: self.current, recycled: self.recycled@ }
    }
}

impl RecycleAllocator {
    /// The allocator's invariant.
    pub open spec fn wf(&self) -> bool {
        self@.wf()
    }

    /// An allocator that has handed out nothing.
    pub fn new() -> (r: Self)
        ensures
            r.wf(),
            r@.current == 0,
            r@.recycled == Seq::<usize>::empty(),
            r@.in_use() == Set::<usize>::empty(),
    {
        let r = RecycleAllocator { current: 0, recycled: Vec::new() };
        assert(r@.in_use() =~= Set::<usize>::empty());
        r
    }

    /// Hands out the most recently returned identifier, or a fresh one when
    /// none was returned.
    pub fn alloc_id(&mut self) -> (id: usize)
        requires
            old(self).wf(),
            old(self)@.recycled.len() > 0 || old(self)@.current < usize::MAX,
        ensures
            final(self).wf(),
            id == old(self)@.next_id(),
            final(self)@ == old(self)@.after_alloc(),
            !old(self)@.in_use().contains(id),
            final(self)@.in_use() == old(self)@.in_use().insert(id),
    {
        let ghost s = self@;
        let id = if let Some(id) = self.recycled.pop() {
            id
        } else {
            self.current += 1;
            self.current - 1
        };
        proof {
            lemma_alloc_in_use(s);
        }
        id
    }

    /// Gives `id` back for reuse.
    pub fn dealloc(&mut self, id: usize)
        requires
            old(self).wf(),
            id < old(self)@.current,
            !old(self)@.recycled.contains(id),
        ensures
            final(self).wf(),
            final(self)@ == old(self)@.after_dealloc(id),
            final(self)@.in_use() == old(self)@.in_use().remove(id),
    {
        let ghost s = self@;
        self.recycled.push(id);
        proof {
            lemma_dealloc_in_use(s, id);
        }
    }
}

proof fn lemma_alloc_in_use(s: RecycleState)
    requires
        s.wf(),
        s.recycled.len() > 0 || s.current < usize::MAX,
    ensures
        s.after_alloc().wf(),
        !s.in_use().contains(s.next_id()),
        s.after_alloc().in_use() == s.in_use().insert(s.next_id()),
{
    let t = s.after_alloc();
    if s.recycled.len() > 0 {
        let last = s.recycled.last();
        assert(s.recycled.contains(last)) by {
            assert(s.recycled[s.recycled.len() - 1] == last);
        }
        assert forall|i: int| 0 <= i < t.recycled.len() implies (#[trigger] t.recycled[i]) < t.current by {
            assert(t.recycled[i] == s.recycled[i]);
        }
        assert(t.recycled.no_duplicates()) by {
            assert forall|i: int, j: int| 0 <= i < t.recycled.len() && 0 <= j < t.recycled.len() && i != j
                implies t.recycled[i] != t.recycled[j] by {
                assert(t.recycled[i] == s.recycled[i]);
                assert(t.recycled[j] == s.recycled[j]);
            }
        }
        assert forall|id: usize| #[trigger] t.in_use().contains(id) == s.in_use().insert(s.next_id()).contains(id) by {
            if id == last {
                assert(!t.recycled.contains(last)) by {
                    if t.recycled.contains(last) {
                        let k = choose|k: int| 0 <= k < t.recycled.len() && t.recycled[k] == last;
                        assert(s.recycled[k] == s.recycled[s.recycled.len() - 1]);
                    }
                }
            } else {
                if t.recycled.contains(id as usize) {
                    let k = choose|k: int| 0 <= k < t.recycled.len() && t.recycled[k] == id as usize;
                    assert(s.recycled[k] == id as usize);
                }
                if s.recycled.contains(id as usize) {
                    let k = choose|k: int| 0 <= k < s.recycled.len() && s.recycled[k] == id as usize;
                    assert(k != s.recycled.len() - 1);
                    assert(t.recycled[k] == id as usize);
                }
            }
        }
        assert(t.in_use() =~= s.in_use().insert(s.next_id()));
    } else {
        assert(!s.recycled.contains(s.current));
        assert(t.recycled =~= s.recycled);
        assert(t.in_use() =~= s.in_use().insert(s.next_id()));
    }
}

proof fn lemma_dealloc_in_use(s: RecycleState, id: usize)
    requires
        s.wf(),
        id < s.current,
        !s.recycled.contains(id),
    ensures
        s.after_dealloc(id).wf(),
        s.after_dealloc(id).in_use() == s.in_use().remove(id),
{
    let t = s.after_dealloc(id);
    assert forall|i: int| 0 <= i < t.recycled.len() implies (#[trigger] t.recycled[i]) < t.current by {
        if i < s.recycled.len() {
            assert(t.recycled[i] == s.recycled[i]);
        }
    }
    assert(t.recycled.no_duplicates()) by {
        assert forall|i: int, j: int| 0 <= i < t.recycled.len() && 0 <= j < t.recycled.len() && i != j
            implies t.recycled[i] != t.recycled[j] by {
            if i < s.recycled.len() && j < s.recycled.len() {
                assert(t.recycled[i] == s.recycled[i]);
                assert(t.recycled[j] == s.recycled[j]);
            } else if i < s.recycled.len() {
                assert(t.recycled[i] == s.recycled[i]);
            } else {
                assert(t.recycled[j] == s.recycled[j]);
            }
        }
    }
    assert forall|x: usize| #[trigger] t.in_use().contains(x) == s.in_use().remove(id).contains(x) by {
        if t.recycled.contains(x) && x != id {
            let k = choose|k: int| 0 <= k < t.recycled.len() && t.recycled[k] == x;
            assert(k < s.recycled.len());
            assert(s.recycled[k] == x);
        }
        if s.recycled.contains(x) {
            let k = choose|k: int| 0 <= k < s.recycled.len() && s.recycled[k] == x;
            assert(t.recycled[k] == x);
        }
        if x == id {
            assert(t.recycled[s.recycled.len() as int] == id);
        }
    }
    assert(t.in_use() =~= s.in_use().remove(id));
}

/// Giving an identifier back and allocating again returns that same
/// identifier and restores the allocator to its earlier state.
pub proof fn law_dealloc_then_alloc(s: RecycleState, id: usize)
    requires
        s.wf(),
        id < s.current,
        !s.recycled.contains(id),
    ensures
        s.after_dealloc(id).next_id() == id,
        s.after_dealloc(id).after_alloc() == s,
{
    assert(s.after_dealloc(id).recycled.drop_last() =~= s.recycled);
}

/// An allocation never returns an identifier that is still in use, and every
/// allocation keeps the allocator's invariant.
pub proof fn law_alloc_fresh(s: RecycleState)
    requires
        s.wf(),
        s.recycled.len() > 0 || s.current < usize::MAX,
    ensures
        !s.in_use().contains(s.next_id()),
        s.after_alloc().wf(),
        s.after_alloc().in_use() == s.in_use().insert(s.next_id()),
{
    lemma_alloc_in_use(s);
}

} // verus!
