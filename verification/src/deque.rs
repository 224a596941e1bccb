//! A double-ended queue kept on whole physical pages: each page holds a
//! fixed number of items, pages are taken from a frame allocator when an end
//! is full and given back when an end page empties.
use crate::idx_alloc::AllocError;
use std::collections::VecDeque;
use vstd::prelude::*;
use vstd::multiset::Multiset;

verus! {

broadcast use {
    vstd::seq_lib::group_seq_properties,
    vstd::seq_lib::group_to_multiset_ensures,
    vstd::multiset::group_multiset_axioms,
};

/// Gives out and takes back physical pages by number.
pub trait FrameAllocator {
    /// Takes one free page.
    fn allocate_one(&mut self) -> Result<usize, AllocError>;

    /// Gives back the pages in `range`.
    fn deallocate(&mut self, range: core::ops::Range<usize>);
}

/// `x` rounded up to a multiple of `align_mask + 1`, a power of two.
pub open spec fn align_up(x: int, align_mask: int) -> int {
    ((x + align_mask) as usize & !(align_mask as usize)) as int
}

/// Items of `item_size` bytes aligned to `item_align` that fit in a page of
/// `1 << page_bits` bytes after two page links of `link_size` bytes each,
/// links and items aligned up to `item_align`.
pub open spec fn spec_page_cap(page_bits: u32, item_size: usize, item_align: usize, link_size: usize) -> int {
    let mask = item_align - 1;
    let base = align_up(2 * link_size, mask);
    let each = align_up(item_size as int, mask);
    ((1usize << page_bits) - base) / each
}

/// How many items of `item_size` bytes aligned to `item_align` a page of
/// `1 << page_bits` bytes holds, after two page links of `link_size` bytes
/// each, links and items aligned up to `item_align`.
pub fn page_cap(page_bits: u32, item_size: usize, item_align: usize, link_size: usize) -> (r: usize)
    requires
        page_bits < usize::BITS,
        1 <= item_align,
        2 * link_size + item_align - 1 <= usize::MAX,
        item_size + item_align - 1 <= usize::MAX,
        align_up(2 * link_size, item_align - 1) <= (1usize << page_bits),
        align_up(item_size as int, item_align - 1) > 0,
    ensures
        r == spec_page_cap(page_bits, item_size, item_align, link_size),
{
    let mask = item_align - 1;
    let base = (2 * link_size + mask) & !mask;
    let each = (item_size + mask) & !mask;
    ((1usize << page_bits) - base) / each
}

/// One page of the queue: its number and the items it holds now.
struct DequePage<T> {
    ppn: usize,
    items: VecDeque<T>,
}

/// The items held by each page, in page order.
spec fn page_items<T>(pages: Seq<DequePage<T>>) -> Seq<Seq<T>> {
    pages.map_values(|p: DequePage<T>| p.items@)
}

/// A double-ended queue on pages taken from `A`. The first page holds the
/// items from index `head_idx` to its end (or to `tail_idx` when it is the
/// only page), the last page the items below `tail_idx`, the pages between
/// are full.
pub struct Deque<T, A: FrameAllocator> {
    pages: VecDeque<DequePage<T>>,
    head_idx: usize,
    tail_idx: usize,
    page_count: usize,
    cap: usize,
    a: A,
    /// The pages taken from the allocator, in the order taken.
    taken: Ghost<Seq<usize>>,
    /// The pages given back to the allocator, in the order given back.
    given: Ghost<Seq<usize>>,
}

impl<T, A: FrameAllocator> View for Deque<T, A> {
    type V = Seq<T>;

    /// The items of the queue, front first.
    closed spec fn view(&self) -> Seq<T> {
        page_items(self.pages@).flatten()
    }
}

proof fn lemma_flatten_full<T>(s: Seq<Seq<T>>, cap: nat)
    requires
        forall|i: int| 0 <= i < s.len() ==> (#[trigger] s[i]).len() == cap,
    ensures
        s.flatten().len() == s.len() * cap,
    decreases s.len(),
{
    if s.len() > 0 {
        lemma_flatten_full(s.drop_first(), cap);
        assert(s.flatten() == s.first() + s.drop_first().flatten());
        assert((s.len() - 1) * cap + cap == s.len() * cap) by (nonlinear_arith);
    }
}

proof fn lemma_flatten_ends<T>(s: Seq<Seq<T>>, cap: nat)
    requires
        s.len() >= 2,
        forall|i: int| 0 < i < s.len() - 1 ==> (#[trigger] s[i]).len() == cap,
    ensures
        s.flatten().len() == s[0].len() + (s.len() - 2) * cap + s[s.len() - 1].len(),
{
    let mid = s.subrange(1, s.len() - 1);
    assert(s.drop_first() =~= mid.push(s[s.len() - 1]));
    assert(s.flatten() == s.first() + s.drop_first().flatten());
    mid.lemma_flatten_push(s[s.len() - 1]);
    lemma_flatten_full(mid, cap);
}

proof fn lemma_items_push<T>(pages: Seq<DequePage<T>>, p: DequePage<T>)
    ensures
        page_items(pages.push(p)) == page_items(pages).push(p.items@),
        page_items(pages.push(p)).flatten() == page_items(pages).flatten() + p.items@,
{
    assert(page_items(pages.push(p)) =~= page_items(pages).push(p.items@));
    page_items(pages).lemma_flatten_push(p.items@);
}

proof fn lemma_items_prepend<T>(pages: Seq<DequePage<T>>, p: DequePage<T>)
    ensures
        page_items(seq![p] + pages) == seq![p.items@] + page_items(pages),
        page_items(seq![p] + pages).flatten() == p.items@ + page_items(pages).flatten(),
{
    let s = seq![p.items@] + page_items(pages);
    assert(page_items(seq![p] + pages) =~= s);
    assert(s.drop_first() =~= page_items(pages));
    assert(s.flatten() == s.first() + s.drop_first().flatten());
}

impl<T, A: FrameAllocator> Deque<T, A> {
    /// Items a page holds.
    pub closed spec fn capacity(&self) -> nat {
        self.cap as nat
    }

    /// The numbers of the pages the queue holds, front first.
    pub closed spec fn frames(&self) -> Seq<usize> {
        self.pages@.map_values(|p: DequePage<T>| p.ppn)
    }

    /// How many pages the queue holds.
    pub closed spec fn page_total(&self) -> nat {
        self.page_count as nat
    }

    /// Whether pushing at the back needs a new page.
    pub closed spec fn back_full(&self) -> bool {
        self.tail_idx == self.cap
    }

    /// Whether pushing at the front needs a new page.
    pub closed spec fn front_full(&self) -> bool {
        self.head_idx == 0
    }

    /// The allocator the queue takes pages from.
    pub closed spec fn allocator(&self) -> A {
        self.a
    }

    /// The pages taken from the allocator so far, in the order taken.
    pub closed spec fn taken_pages(&self) -> Seq<usize> {
        self.taken@
    }

    /// The pages given back to the allocator so far, in the order given back.
    pub closed spec fn given_back(&self) -> Seq<usize> {
        self.given@
    }

    /// Whether the first page holds exactly one item, so that taking it
    /// empties the page.
    pub closed spec fn front_single(&self) -> bool {
        self.page_count >= 1 && page_items(self.pages@)[0].len() == 1
    }

    /// Whether the last page holds exactly one item, so that taking it
    /// empties the page.
    pub closed spec fn back_single(&self) -> bool {
        self.page_count >= 1 && page_items(self.pages@)[self.page_count - 1].len() == 1
    }

    /// Every page taken is either given back or still held, once.
    pub closed spec fn ledger_ok(&self) -> bool {
        self.taken@.to_multiset() == self.given@.to_multiset().add(self.frames().to_multiset())
    }

    /// The bookkeeping agrees with the pages: see the type's description.
    pub closed spec fn wf(&self) -> bool {
        let ps = page_items(self.pages@);
        let n = self.page_count as int;
        &&& self.cap >= 1
        &&& self.ledger_ok()
        &&& self.pages@.len() == n
        &&& n * self.cap <= usize::MAX
        &&& n == 0 ==> self.head_idx == 0 && self.tail_idx == self.cap
        &&& n == 1 ==> self.head_idx < self.tail_idx <= self.cap && ps[0].len() == self.tail_idx
            - self.head_idx
        &&& n >= 2 ==> {
            &&& self.head_idx < self.cap
            &&& 1 <= self.tail_idx <= self.cap
            &&& ps[0].len() == self.cap - self.head_idx
            &&& ps[n - 1].len() == self.tail_idx
            &&& forall|i: int| 0 < i < n - 1 ==> (#[trigger] ps[i]).len() == self.cap
        }
    }

    /// An empty queue whose pages hold `cap` items each, taking pages from
    /// `a`.
    pub fn new(a: A, cap: usize) -> (r: Self)
        requires
            cap >= 1,
        ensures
            r.wf(),
            r@ == Seq::<T>::empty(),
            r.capacity() == cap,
            r.frames() == Seq::<usize>::empty(),
            r.page_total() == 0,
            r.allocator() == a,
            r.taken_pages() == Seq::<usize>::empty(),
            r.given_back() == Seq::<usize>::empty(),
    {
        let r = Self {
            pages: VecDeque::new(),
            head_idx: 0,
            tail_idx: cap,
            page_count: 0,
            cap,
            a,
            taken: Ghost(Seq::empty()),
            given: Ghost(Seq::empty()),
        };
        assert(page_items(r.pages@) =~= Seq::<Seq<T>>::empty());
        assert(r.frames() =~= Seq::<usize>::empty());
        proof {
            let e = Seq::<usize>::empty().to_multiset();
            assert(e.len() == 0);
            assert(e =~= Multiset::empty());
            assert(e.add(e) =~= e);
        }
        r
    }

    /// Whether the queue holds no item.
    pub fn is_empty(&self) -> (r: bool)
        requires
            self.wf(),
        ensures
            r == (self@.len() == 0),
    {
        proof {
            self.lemma_len();
        }
        self.page_count == 0
    }

    proof fn lemma_len(&self)
        requires
            self.wf(),
        ensures
            self.page_count == 0 ==> self@.len() == 0,
            self.page_count == 1 ==> self@.len() == self.tail_idx - self.head_idx,
            self.page_count >= 2 ==> self@.len() == (self.page_count - 1) * self.cap + self.tail_idx
                - self.head_idx,
            self.page_count >= 1 ==> self@.len() >= 1,
    {
        let ps = page_items(self.pages@);
        let n = self.page_count as int;
        if n == 0 {
            assert(ps =~= Seq::<Seq<T>>::empty());
        } else if n == 1 {
            assert(ps.drop_first() =~= Seq::<Seq<T>>::empty());
            assert(ps.flatten() == ps.first() + ps.drop_first().flatten());
        } else {
            lemma_flatten_ends(ps, self.cap as nat);
            assert((n - 2) * self.cap + self.cap == (n - 1) * self.cap) by (nonlinear_arith);
        }
    }

    /// The number of items in the queue.
    pub fn len(&self) -> (r: usize)
        requires
            self.wf(),
        ensures
            r == self@.len(),
    {
        proof {
            self.lemma_len();
        }
        let n = self.page_count;
        if n == 0 {
            0
        } else if n == 1 {
            self.tail_idx - self.head_idx
        } else {
            proof {
                assert(self.cap <= (n - 1) * self.cap && (n - 1) * self.cap + self.cap == n * self.cap)
                    by (nonlinear_arith)
                    requires n >= 2;
            }
            (n - 1) * self.cap - self.head_idx + self.tail_idx
        }
    }

    /// Pushes `val` at the back. When the last page is full, or there is
    /// none, a page is asked of the allocator first and its answer handed to
    /// [`Deque::push_back_on`]: its error comes back and nothing changes, or
    /// the page becomes the last page.
    pub fn push_back(&mut self, val: T) -> (r: Result<(), AllocError>)
        requires
            old(self).wf(),
            (old(self).page_total() + 1) * old(self).capacity() <= usize::MAX,
        ensures
            final(self).wf(),
            final(self).capacity() == old(self).capacity(),
            final(self).frames().len() == final(self).page_total(),
            final(self).given_back() == old(self).given_back(),
            r is Ok ==> final(self)@ == old(self)@.push(val),
            r is Err ==> old(self).back_full() && final(self)@ == old(self)@ && final(self).frames()
                == old(self).frames() && final(self).page_total() == old(self).page_total()
                && final(self).taken_pages() == old(self).taken_pages(),
            r is Ok && !old(self).back_full() ==> final(self).frames() == old(self).frames()
                && final(self).taken_pages() == old(self).taken_pages() && !final(self).back_single(),
            r is Ok && old(self).back_full() ==> final(self).back_single() && exists|p: usize|
                final(self).frames() == old(self).frames().push(p) && final(self).taken_pages()
                    == old(self).taken_pages().push(p),
    {
        if self.tail_idx == self.cap {
            let page = self.a.allocate_one();
            let ghost got = page;
            let r = self.push_back_on(val, page);
            proof {
                if r is Ok {
                    let p = got->Ok_0;
                    assert(self.frames() == old(self).frames().push(p));
                }
            }
            return r;
        }
        let ghost old_pages = self.pages@;
        assert(self.pages@.len() > 0);
        let mut last = self.pages.pop_back().unwrap();
        let ghost rest = self.pages@;
        proof {
            assert(old_pages =~= rest.push(last));
            lemma_items_push(rest, last);
        }
        last.items.push_back(val);
        self.pages.push_back(last);
        proof {
            lemma_items_push(rest, last);
            assert(self.frames() =~= old(self).frames());
        }
        self.tail_idx = self.tail_idx + 1;
        proof {
            let ps = page_items(self.pages@);
            let ops = page_items(old_pages);
            let n = self.page_count as int;
            assert forall|i: int| 0 <= i < n - 1 implies ps[i] == ops[i] by {}
            assert(ps[n - 1] == ops[n - 1].push(val));
            if n >= 2 {
                assert forall|i: int| 0 < i < n - 1 implies (#[trigger] ps[i]).len() == self.cap by {
                    assert(ps[i] == ops[i]);
                }
            }
        }
        Ok(())
    }

    /// Pushes `val` at the back on a new page, given what the allocator
    /// answered when asked for one: its error is handed back and nothing
    /// changes, or the page it gave becomes the last page, holding `val`.
    pub fn push_back_on(&mut self, val: T, page: Result<usize, AllocError>) -> (r: Result<(), AllocError>)
        requires
            old(self).wf(),
            old(self).back_full(),
            (old(self).page_total() + 1) * old(self).capacity() <= usize::MAX,
        ensures
            final(self).wf(),
            final(self).capacity() == old(self).capacity(),
            final(self).frames().len() == final(self).page_total(),
            final(self).given_back() == old(self).given_back(),
            match page {
                Ok(p) => r is Ok && final(self)@ == old(self)@.push(val) && final(self).frames() == old(
                    self,
                ).frames().push(p) && final(self).taken_pages() == old(self).taken_pages().push(p)
                    && final(self).back_single(),
                Err(e) => r == Err::<(), AllocError>(e) && final(self)@ == old(self)@ && final(self).frames()
                    == old(self).frames() && final(self).page_total() == old(self).page_total()
                    && final(self).taken_pages() == old(self).taken_pages(),
            },
    {
        let ghost old_pages = self.pages@;
        let p = match page {
            Ok(p) => p,
            Err(e) => return Err(e),
        };
        let mut items: VecDeque<T> = VecDeque::new();
        items.push_back(val);
        let np = DequePage { ppn: p, items };
        self.pages.push_back(np);
        proof {
            lemma_items_push(old_pages, np);
            assert(np.items@ =~= seq![val]);
            assert(self.frames() =~= old(self).frames().push(p));
            assert((self.page_count + 1) * self.cap >= self.page_count + 1) by (nonlinear_arith)
                requires self.cap >= 1;
        }
        self.tail_idx = 1;
        self.page_count = self.page_count + 1;
        proof {
            let ps = page_items(self.pages@);
            let ops = page_items(old_pages);
            let n = self.page_count as int;
            assert(ps[n - 1] == seq![val]);
            assert forall|i: int| 0 <= i < n - 1 implies ps[i] == ops[i] by {}
            if n >= 2 {
                assert forall|i: int| 0 < i < n - 1 implies (#[trigger] ps[i]).len() == self.cap by {
                    assert(ps[i] == ops[i]);
                }
            }
        }
        self.taken = Ghost(self.taken@.push(p));
        proof {
            assert(self.taken@.to_multiset() =~= self.given@.to_multiset().add(self.frames().to_multiset()));
        }
        Ok(())
    }

    /// Pushes `val` at the front. When the first page is full, or there is
    /// none, a page is asked of the allocator first and its answer handed to
    /// [`Deque::push_front_on`]: its error comes back and nothing changes, or
    /// the page becomes the first page.
    pub fn push_front(&mut self, val: T) -> (r: Result<(), AllocError>)
        requires
            old(self).wf(),
            (old(self).page_total() + 1) * old(self).capacity() <= usize::MAX,
        ensures
            final(self).wf(),
            final(self).capacity() == old(self).capacity(),
            final(self).frames().len() == final(self).page_total(),
            final(self).given_back() == old(self).given_back(),
            r is Ok ==> final(self)@ == seq![val] + old(self)@,
            r is Err ==> old(self).front_full() && final(self)@ == old(self)@ && final(self).frames()
                == old(self).frames() && final(self).page_total() == old(self).page_total()
                && final(self).taken_pages() == old(self).taken_pages(),
            r is Ok && !old(self).front_full() ==> final(self).frames() == old(self).frames()
                && final(self).taken_pages() == old(self).taken_pages() && !final(self).front_single(),
            r is Ok && old(self).front_full() ==> final(self).front_single() && exists|p: usize|
                final(self).frames() == seq![p] + old(self).frames() && final(self).taken_pages()
                    == old(self).taken_pages().push(p),
    {
        if self.head_idx == 0 {
            let page = self.a.allocate_one();
            let ghost got = page;
            let r = self.push_front_on(val, page);
            proof {
                if r is Ok {
                    let p = got->Ok_0;
                    assert(self.frames() == seq![p] + old(self).frames());
                    assert(self.taken_pages() == old(self).taken_pages().push(p));
                }
            }
            return r;
        }
        let ghost old_pages = self.pages@;
        assert(self.pages@.len() > 0);
        let mut first = self.pages.pop_front().unwrap();
        let ghost rest = self.pages@;
        proof {
            assert(old_pages =~= seq![first] + rest);
            lemma_items_prepend(rest, first);
        }
        first.items.push_front(val);
        self.pages.push_front(first);
        proof {
            lemma_items_prepend(rest, first);
            assert(self.frames() =~= old(self).frames());
        }
        self.head_idx = self.head_idx - 1;
        proof {
            let ps = page_items(self.pages@);
            let ops = page_items(old_pages);
            let n = self.page_count as int;
            assert forall|i: int| 0 < i < n implies ps[i] == ops[i] by {}
            assert(ps[0] == seq![val] + ops[0]);
            if n >= 2 {
                assert(ps[n - 1] == ops[n - 1]);
                assert forall|i: int| 0 < i < n - 1 implies (#[trigger] ps[i]).len() == self.cap by {
                    assert(ps[i] == ops[i]);
                }
            }
        }
        Ok(())
    }

    /// Pushes `val` at the front on a new page, given what the allocator
    /// answered when asked for one: its error is handed back and nothing
    /// changes, or the page it gave becomes the first page, holding `val`.
    pub fn push_front_on(&mut self, val: T, page: Result<usize, AllocError>) -> (r: Result<(), AllocError>)
        requires
            old(self).wf(),
            old(self).front_full(),
            (old(self).page_total() + 1) * old(self).capacity() <= usize::MAX,
        ensures
            final(self).wf(),
            final(self).capacity() == old(self).capacity(),
            final(self).frames().len() == final(self).page_total(),
            final(self).given_back() == old(self).given_back(),
            match page {
                Ok(p) => r is Ok && final(self)@ == seq![val] + old(self)@ && final(self).frames() == seq![p]
                    + old(self).frames() && final(self).taken_pages() == old(self).taken_pages().push(p)
                    && final(self).front_single(),
                Err(e) => r == Err::<(), AllocError>(e) && final(self)@ == old(self)@ && final(self).frames()
                    == old(self).frames() && final(self).page_total() == old(self).page_total()
                    && final(self).taken_pages() == old(self).taken_pages(),
            },
    {
        let ghost old_pages = self.pages@;
        let p = match page {
            Ok(p) => p,
            Err(e) => return Err(e),
        };
        let mut items: VecDeque<T> = VecDeque::new();
        items.push_back(val);
        let np = DequePage { ppn: p, items };
        self.pages.push_front(np);
        proof {
            lemma_items_prepend(old_pages, np);
            assert(np.items@ =~= seq![val]);
            assert(self.frames().drop_first() =~= old(self).frames());
            assert((self.page_count + 1) * self.cap >= self.page_count + 1) by (nonlinear_arith)
                requires self.cap >= 1;
        }
        self.head_idx = self.cap - 1;
        self.page_count = self.page_count + 1;
        proof {
            let ps = page_items(self.pages@);
            let ops = page_items(old_pages);
            let n = self.page_count as int;
            assert(ps[0] == seq![val]);
            assert forall|i: int| 0 < i < n implies ps[i] == ops[i - 1] by {}
            if n >= 2 {
                assert(ps[n - 1] == ops[n - 2]);
                assert forall|i: int| 0 < i < n - 1 implies (#[trigger] ps[i]).len() == self.cap by {
                    assert(ps[i] == ops[i - 1]);
                }
            }
        }
        self.taken = Ghost(self.taken@.push(p));
        proof {
            assert(self.frames() =~= old(self).frames().insert(0, p));
            assert(self.taken@.to_multiset() =~= self.given@.to_multiset().add(self.frames().to_multiset()));
        }
        Ok(())
    }

    /// Gives page `ppn` back to the allocator, and records it as given back.
    fn give_back(&mut self, ppn: usize)
        ensures
            final(self).given@ == old(self).given@.push(ppn),
            final(self).taken@ == old(self).taken@,
            final(self).pages@ == old(self).pages@,
            final(self).head_idx == old(self).head_idx,
            final(self).tail_idx == old(self).tail_idx,
            final(self).page_count == old(self).page_count,
            final(self).cap == old(self).cap,
    {
        self.a.deallocate(ppn..ppn.wrapping_add(1));
        self.given = Ghost(self.given@.push(ppn));
    }

    /// Takes the item at the front, if any. When that empties the first page,
    /// the page is given back to the allocator.
    pub fn pop_front(&mut self) -> (r: Option<T>)
        requires
            old(self).wf(),
        ensures
            final(self).wf(),
            final(self).capacity() == old(self).capacity(),
            final(self).frames().len() == final(self).page_total(),
            old(self)@.len() == 0 ==> r is None && final(self)@ == old(self)@ && final(self).frames()
                == old(self).frames() && final(self).given_back() == old(self).given_back(),
            old(self)@.len() > 0 ==> r == Some(old(self)@[0]) && final(self)@ == old(self)@.drop_first(),
            final(self).taken_pages() == old(self).taken_pages(),
            old(self).front_single() ==> final(self).frames() == old(self).frames().drop_first()
                && final(self).given_back() == old(self).given_back().push(old(self).frames()[0]),
            !old(self).front_single() ==> final(self).frames() == old(self).frames()
                && final(self).given_back() == old(self).given_back(),
    {
        proof {
            self.lemma_len();
        }
        if self.page_count == 0 {
            return None;
        }
        let ghost old_pages = self.pages@;
        let mut first = self.pages.pop_front().unwrap();
        let ghost rest = self.pages@;
        let ghost first_items = first.items@;
        proof {
            assert(old_pages =~= seq![first] + rest);
            lemma_items_prepend(rest, first);
            assert(page_items(old_pages)[0] == first_items);
        }
        let val = first.items.pop_front().unwrap();
        self.head_idx = self.head_idx + 1;
        if self.head_idx == self.cap || (self.page_count == 1 && self.head_idx == self.tail_idx) {
            let ppn = first.ppn;
            self.give_back(ppn);
            self.head_idx = 0;
            self.page_count = self.page_count - 1;
            if self.page_count == 0 {
                self.tail_idx = self.cap;
            }
            proof {
                assert(first.items@.len() == 0);
                assert(first_items =~= seq![val]);
                assert(self.frames() =~= old(self).frames().drop_first());
                let f = old(self).frames();
                assert(f[0] == ppn);
                assert(self.frames() =~= f.remove(0));
                assert(f.contains(f[0]));
                assert(f.to_multiset().count(f[0]) > 0);
                assert(self.frames().to_multiset() =~= f.to_multiset().remove(f[0]));
                assert(self.given@.to_multiset() =~= old(self).given@.to_multiset().insert(f[0]));
                assert(self.taken@.to_multiset() =~= self.given@.to_multiset().add(self.frames().to_multiset()));
                let ps = page_items(self.pages@);
                let ops = page_items(old_pages);
                let n = self.page_count as int;
                assert forall|i: int| 0 <= i < n implies ps[i] == ops[i + 1] by {}
                if n == 0 {
                    assert(ps =~= Seq::<Seq<T>>::empty());
                }
                if n >= 1 {
                    assert(ps[0] == ops[1]);
                    assert(ps[n - 1] == ops[n]);
                }
                if n >= 2 {
                    assert forall|i: int| 0 < i < n - 1 implies (#[trigger] ps[i]).len() == self.cap by {
                        assert(ps[i] == ops[i + 1]);
                    }
                }
                assert((n + 1) * self.cap >= n * self.cap) by (nonlinear_arith);
            }
        } else {
            let ghost popped = first;
            self.pages.push_front(first);
            proof {
                lemma_items_prepend(rest, first);
                assert(first_items =~= seq![val] + first.items@);
                assert(self.frames() =~= old(self).frames());
                let ps = page_items(self.pages@);
                let ops = page_items(old_pages);
                let n = self.page_count as int;
                assert forall|i: int| 0 < i < n implies ps[i] == ops[i] by {}
                if n >= 2 {
                    assert(ps[n - 1] == ops[n - 1]);
                    assert forall|i: int| 0 < i < n - 1 implies (#[trigger] ps[i]).len() == self.cap by {
                        assert(ps[i] == ops[i]);
                    }
                }
            }
        }
        Some(val)
    }

    /// Takes the item at the back, if any. When that empties the last page,
    /// the page is given back to the allocator.
    pub fn pop_back(&mut self) -> (r: Option<T>)
        requires
            old(self).wf(),
        ensures
            final(self).wf(),
            final(self).capacity() == old(self).capacity(),
            final(self).frames().len() == final(self).page_total(),
            old(self)@.len() == 0 ==> r is None && final(self)@ == old(self)@ && final(self).frames()
                == old(self).frames() && final(self).given_back() == old(self).given_back(),
            old(self)@.len() > 0 ==> r == Some(old(self)@.last()) && final(self)@ == old(self)@.drop_last(),
            final(self).taken_pages() == old(self).taken_pages(),
            old(self).back_single() ==> final(self).frames() == old(self).frames().drop_last()
                && final(self).given_back() == old(self).given_back().push(old(self).frames().last()),
            !old(self).back_single() ==> final(self).frames() == old(self).frames()
                && final(self).given_back() == old(self).given_back(),
    {
        proof {
            self.lemma_len();
        }
        if self.page_count == 0 {
            return None;
        }
        let ghost old_pages = self.pages@;
        let mut last = self.pages.pop_back().unwrap();
        let ghost rest = self.pages@;
        let ghost last_items = last.items@;
        proof {
            assert(old_pages =~= rest.push(last));
            lemma_items_push(rest, last);
            assert(page_items(old_pages)[old_pages.len() - 1] == last_items);
        }
        self.tail_idx = self.tail_idx - 1;
        let val = last.items.pop_back().unwrap();
        if self.tail_idx == 0 || (self.page_count == 1 && self.head_idx == self.tail_idx) {
            let ppn = last.ppn;
            self.give_back(ppn);
            self.tail_idx = self.cap;
            self.page_count = self.page_count - 1;
            if self.page_count == 0 {
                self.head_idx = 0;
            }
            proof {
                assert(last.items@.len() == 0);
                assert(last_items =~= seq![val]);
                assert(self.frames() =~= old(self).frames().drop_last());
                let f = old(self).frames();
                let k = f.len() - 1;
                assert(f[k] == ppn);
                assert(self.frames() =~= f.remove(k));
                assert(f.contains(f[k]));
                assert(f.to_multiset().count(f[k]) > 0);
                assert(self.frames().to_multiset() =~= f.to_multiset().remove(f[k]));
                assert(self.given@.to_multiset() =~= old(self).given@.to_multiset().insert(f[k]));
                assert(self.taken@.to_multiset() =~= self.given@.to_multiset().add(self.frames().to_multiset()));
                assert(old(self)@ == page_items(rest).flatten() + seq![val]);
                let ps = page_items(self.pages@);
                let ops = page_items(old_pages);
                let n = self.page_count as int;
                assert forall|i: int| 0 <= i < n implies ps[i] == ops[i] by {}
                if n == 0 {
                    assert(ps =~= Seq::<Seq<T>>::empty());
                }
                if n >= 1 {
                    assert(ps[0] == ops[0]);
                    assert(ps[n - 1] == ops[n - 1]);
                }
                if n >= 2 {
                    assert forall|i: int| 0 < i < n - 1 implies (#[trigger] ps[i]).len() == self.cap by {
                        assert(ps[i] == ops[i]);
                    }
                }
                assert((n + 1) * self.cap >= n * self.cap) by (nonlinear_arith);
            }
        } else {
            self.pages.push_back(last);
            proof {
                lemma_items_push(rest, last);
                assert(last_items =~= last.items@.push(val));
                assert(self.frames() =~= old(self).frames());
                let ps = page_items(self.pages@);
                let ops = page_items(old_pages);
                let n = self.page_count as int;
                assert forall|i: int| 0 <= i < n - 1 implies ps[i] == ops[i] by {}
                if n >= 2 {
                    assert(ps[0] == ops[0]);
                    assert forall|i: int| 0 < i < n - 1 implies (#[trigger] ps[i]).len() == self.cap by {
                        assert(ps[i] == ops[i]);
                    }
                }
            }
        }
        Some(val)
    }

    /// Gives every page back to the allocator, front page first, and drops
    /// the items, leaving the queue empty: what dropping the queue does.
    pub fn release(&mut self)
        requires
            old(self).wf(),
        ensures
            final(self).wf(),
            final(self)@ == Seq::<T>::empty(),
            final(self).frames() == Seq::<usize>::empty(),
            final(self).capacity() == old(self).capacity(),
            final(self).frames().len() == final(self).page_total(),
            final(self).taken_pages() == old(self).taken_pages(),
            final(self).given_back() == old(self).given_back() + old(self).frames(),
    {
        while self.pages.len() > 0
            invariant
                self.cap == old(self).cap,
                self.cap >= 1,
                self.taken@ == old(self).taken@,
                self.given@ + self.frames() == old(self).given@ + old(self).frames(),
            decreases self.pages@.len(),
        {
            let ghost before = self.frames();
            let ghost given_before = self.given@;
            let page = self.pages.pop_front().unwrap();
            let ppn = page.ppn;
            self.give_back(ppn);
            proof {
                assert(self.frames() =~= before.drop_first());
                assert(before[0] == ppn);
                assert(self.given@ + self.frames() =~= given_before + before);
            }
        }
        self.head_idx = 0;
        self.tail_idx = self.cap;
        self.page_count = 0;
        proof {
            assert(page_items(self.pages@) =~= Seq::<Seq<T>>::empty());
            assert(self.frames() =~= Seq::<usize>::empty());
            assert(self.given@ + self.frames() =~= self.given@);
            vstd::seq_lib::lemma_multiset_commutative(old(self).given@, old(self).frames());
            let e = self.frames().to_multiset();
            assert(e.len() == 0);
            assert(e =~= Multiset::empty());
            assert(self.taken@.to_multiset() =~= self.given@.to_multiset().add(e));
        }
    }
}


/// A queue keeps no page it does not need: it holds one frame per page, no
/// pages exactly when it is empty, at most a page's worth of items per page,
/// and with two pages or more every page but the two ends full and the two
/// ends not empty.
pub proof fn law_no_empty_pages<T, A: FrameAllocator>(q: &Deque<T, A>)
    requires
        q.wf(),
    ensures
        q.frames().len() == q.page_total(),
        q.page_total() == 0 <==> q@.len() == 0,
        q@.len() <= q.page_total() * q.capacity(),
        q.page_total() >= 2 ==> q@.len() >= (q.page_total() - 2) * q.capacity() + 2,
{
    q.lemma_len();
    let n = q.page_count as int;
    let c = q.cap as int;
    if n >= 2 {
        assert((n - 1) * c + c == n * c) by (nonlinear_arith);
        assert((n - 2) * c + c == (n - 1) * c) by (nonlinear_arith);
    }
    if n == 1 {
        assert(1 * c == c);
    }
}


/// Every page a queue took from the allocator is either still held by the
/// queue or was given back, exactly once; once the queue holds no page, the
/// pages given back are exactly the pages taken.
pub proof fn law_pages_given_back_once<T, A: FrameAllocator>(q: &Deque<T, A>)
    requires
        q.wf(),
    ensures
        q.taken_pages().to_multiset() == q.given_back().to_multiset().add(q.frames().to_multiset()),
        q.frames().len() == 0 ==> q.taken_pages().to_multiset() == q.given_back().to_multiset(),
{
    if q.frames().len() == 0 {
        let e = q.frames().to_multiset();
        assert(e.len() == 0);
        assert(e =~= Multiset::empty());
        assert(q.given_back().to_multiset().add(e) =~= q.given_back().to_multiset());
    }
}

/// One operation on a double-ended queue.
pub enum QueueStep<T> {
    /// An item pushed at the back.
    PushBack(T),
    /// An item pushed at the front.
    PushFront(T),
    /// An item taken from the back, if there is one.
    PopBack,
    /// An item taken from the front, if there is one.
    PopFront,
}

/// The items after one step on `s`, as the contracts of [`Deque`] state
/// for a push that succeeded and for a pop.
pub open spec fn step_items<T>(s: Seq<T>, step: QueueStep<T>) -> Seq<T> {
    match step {
        QueueStep::PushBack(v) => s.push(v),
        QueueStep::PushFront(v) => seq![v] + s,
        QueueStep::PopBack => if s.len() > 0 { s.drop_last() } else { s },
        QueueStep::PopFront => if s.len() > 0 { s.drop_first() } else { s },
    }
}

/// The items after the steps `steps` on `s`, with how many pushes there were
/// and how many pops found an item.
pub open spec fn run_steps<T>(s: Seq<T>, steps: Seq<QueueStep<T>>) -> (Seq<T>, nat, nat)
    decreases steps.len(),
{
    if steps.len() == 0 {
        (s, 0, 0)
    } else {
        let (t, pushes, pops) = run_steps(s, steps.drop_last());
        let step = steps.last();
        let pushed: nat = if step is PushBack || step is PushFront { 1 } else { 0 };
        let popped: nat = if !(step is PushBack || step is PushFront) && t.len() > 0 { 1 } else { 0 };
        (step_items(t, step), pushes + pushed, pops + popped)
    }
}

/// After any mix of pushes that succeeded and pops, a queue holds its
/// earlier items plus one per push and minus one per pop that found an item;
/// it is empty exactly when those counts balance the items it had.
pub proof fn law_len_after_steps<T>(s: Seq<T>, steps: Seq<QueueStep<T>>)
    ensures
        run_steps(s, steps).0.len() == s.len() + run_steps(s, steps).1 - run_steps(s, steps).2,
    decreases steps.len(),
{
    if steps.len() > 0 {
        law_len_after_steps(s, steps.drop_last());
    }
}


proof fn lemma_trace_runs<T, A: FrameAllocator>(qs: Seq<Deque<T, A>>, steps: Seq<QueueStep<T>>)
    requires
        qs.len() == steps.len() + 1,
        forall|i: int| 0 <= i < steps.len() ==> (#[trigger] qs[i + 1])@ == step_items(qs[i]@, steps[i]),
    ensures
        qs.last()@ == run_steps(qs[0]@, steps).0,
    decreases steps.len(),
{
    if steps.len() > 0 {
        let qs2 = qs.drop_last();
        let st2 = steps.drop_last();
        assert forall|i: int| 0 <= i < st2.len() implies (#[trigger] qs2[i + 1])@ == step_items(qs2[i]@, st2[i]) by {
            assert(qs2[i + 1] == qs[i + 1]);
        }
        lemma_trace_runs(qs2, st2);
        let k = steps.len() - 1;
        assert(qs[k + 1]@ == step_items(qs[k]@, steps[k]));
    }
}

/// Queues `qs[0]`, `qs[1]`, ... where each comes from the one before by the
/// call `steps[i]` (a push that succeeded, or a pop), as the calls' contracts
/// state: the last one holds what [`run_steps`] gives, one item more per
/// push and one fewer per pop that found an item, and it is empty exactly
/// when those counts balance the items the first one held.
pub proof fn law_len_after_calls<T, A: FrameAllocator>(qs: Seq<Deque<T, A>>, steps: Seq<QueueStep<T>>)
    requires
        qs.len() == steps.len() + 1,
        forall|i: int| 0 <= i < steps.len() ==> (#[trigger] qs[i + 1])@ == step_items(qs[i]@, steps[i]),
    ensures
        qs.last()@ == run_steps(qs[0]@, steps).0,
        qs.last()@.len() == qs[0]@.len() + run_steps(qs[0]@, steps).1 - run_steps(qs[0]@, steps).2,
        qs.last()@.len() == 0 <==> qs[0]@.len() + run_steps(qs[0]@, steps).1 == run_steps(qs[0]@, steps).2,
{
    lemma_trace_runs(qs, steps);
    law_len_after_steps(qs[0]@, steps);
}

proof fn lemma_pushes_fill<T, A: FrameAllocator>(qs: Seq<Deque<T, A>>, xs: Seq<T>, i: int)
    requires
        0 <= i <= xs.len(),
        qs.len() > xs.len(),
        qs[0]@.len() == 0,
        forall|j: int| 0 <= j < xs.len() ==> (#[trigger] qs[j + 1])@ == qs[j]@.push(xs[j]),
    ensures
        qs[i]@ == xs.take(i),
    decreases i,
{
    if i == 0 {
        assert(qs[0]@ =~= xs.take(0));
    } else {
        lemma_pushes_fill(qs, xs, i - 1);
        assert(qs[(i - 1) + 1]@ == qs[i - 1]@.push(xs[i - 1]));
        assert(xs.take(i - 1).push(xs[i - 1]) =~= xs.take(i));
    }
}

proof fn lemma_pops_drain<T, A: FrameAllocator>(qs: Seq<Deque<T, A>>, xs: Seq<T>, out: Seq<T>, j: int)
    requires
        0 <= j <= xs.len(),
        qs.len() == 2 * xs.len() + 1,
        out.len() == xs.len(),
        qs[xs.len() as int]@ == xs,
        forall|m: int| 0 <= m < xs.len() ==> {
            &&& (#[trigger] qs[xs.len() + m])@.len() > 0 ==> out[m] == qs[xs.len() + m]@[0]
            &&& qs[xs.len() + m + 1]@ == if qs[xs.len() + m]@.len() > 0 {
                qs[xs.len() + m]@.drop_first()
            } else {
                qs[xs.len() + m]@
            }
        },
    ensures
        qs[xs.len() + j]@ == xs.skip(j),
        forall|m: int| 0 <= m < j ==> out[m] == xs[m],
    decreases j,
{
    let k = xs.len() as int;
    if j == 0 {
        assert(xs.skip(0) =~= xs);
    } else {
        lemma_pops_drain(qs, xs, out, j - 1);
        let q = qs[k + (j - 1)];
        assert(q@ == xs.skip(j - 1));
        assert(q@.len() > 0);
        assert(qs[k + (j - 1) + 1]@ == q@.drop_first());
        assert(xs.skip(j - 1).drop_first() =~= xs.skip(j));
        assert(k + (j - 1) + 1 == k + j);
        assert(out[j - 1] == xs[j - 1]);
    }
}

/// A queue that starts empty, has `xs` pushed at the back one by one, and
/// then is popped from the front as many times, hands the items out in the
/// order they were pushed and ends empty; by then every page it took from
/// the allocator has been given back, once. `qs` are the queues between the
/// calls and `out` what the pops returned, as the calls' contracts state.
pub proof fn law_first_in_first_out<T, A: FrameAllocator>(qs: Seq<Deque<T, A>>, xs: Seq<T>, out: Seq<T>)
    requires
        qs.len() == 2 * xs.len() + 1,
        out.len() == xs.len(),
        qs[0]@.len() == 0,
        qs.last().wf(),
        forall|j: int| 0 <= j < xs.len() ==> (#[trigger] qs[j + 1])@ == qs[j]@.push(xs[j]),
        forall|m: int| 0 <= m < xs.len() ==> {
            &&& (#[trigger] qs[xs.len() + m])@.len() > 0 ==> out[m] == qs[xs.len() + m]@[0]
            &&& qs[xs.len() + m + 1]@ == if qs[xs.len() + m]@.len() > 0 {
                qs[xs.len() + m]@.drop_first()
            } else {
                qs[xs.len() + m]@
            }
        },
    ensures
        out == xs,
        qs.last()@.len() == 0,
        qs.last().taken_pages().to_multiset() == qs.last().given_back().to_multiset(),
{
    let k = xs.len() as int;
    lemma_pushes_fill(qs, xs, k);
    assert(xs.take(k) =~= xs);
    lemma_pops_drain(qs, xs, out, k);
    assert(out =~= xs);
    assert(xs.skip(k) =~= Seq::<T>::empty());
    assert(qs.last() == qs[k + k]);
    law_no_empty_pages(&qs.last());
    law_pages_given_back_once(&qs.last());
}

} // verus!
