//! A bitmap index allocator made of `N` 32-bit groups; a set bit marks a free
//! index. Used as a page frame allocator each group manages 32 pages.
use crate::idx_alloc::{AllocError, IdxAllocator};
use vstd::prelude::*;
use vstd::std_specs::bits::{u32_trailing_zeros, axiom_u32_trailing_zeros};

verus! {

/// Bit `k` of `w`.
pub open spec fn bit(w: u32, k: int) -> bool {
    (w >> (k as u32)) & 1u32 == 1u32
}

/// Most groups an allocator may have, so that every index fits in a `u32`.
pub const MAX_GROUPS: usize = 0x0800_0000;

/// A bitmap allocator of `32 * N` indices.
pub struct NaiveBitmapIdxAllocator<const N: usize> {
    /// Estimate of a group in which an allocation may succeed.
    hint: u32,
    /// The bitmap: bit `i % 32` of group `i / 32` is set when index `i` is free.
    bits: [u32; N],
}

/// Abstract state of a bitmap allocator: the hint and the groups.
pub struct BitmapState {
    pub hint: u32,
    pub groups: Seq<u32>,
}

impl<const N: usize> View for NaiveBitmapIdxAllocator<N> {
    type V = BitmapState;

    closed spec fn view(&self) -> BitmapState {
        BitmapState { hint: self.hint, groups: self.bits@ }
    }
}

impl<const N: usize> NaiveBitmapIdxAllocator<N> {
    /// The groups of the bitmap.
    pub open spec fn groups(&self) -> Seq<u32> {
        self@.groups
    }

    /// The group where the next search starts.
    pub open spec fn hint_group(&self) -> int {
        self@.hint as int
    }

    /// The allocator's invariant.
    pub open spec fn wf(&self) -> bool {
        &&& N <= MAX_GROUPS
        &&& 32 * N <= usize::MAX
        &&& self.groups().len() == N
        &&& (N > 0 ==> 0 <= self.hint_group() < N)
        &&& (N == 0 ==> self.hint_group() == 0)
    }

    /// Whether index `i` is free.
    pub open spec fn is_free(&self, i: int) -> bool {
        0 <= i < 32 * N && bit(self.groups()[i / 32], i % 32)
    }

    /// The set of free indices.
    pub open spec fn free_set(&self) -> Set<int> {
        Set::new(|i: int| self.is_free(i))
    }

    /// The group visited `d` steps after the hint, wrapping around after the
    /// last group.
    pub open spec fn group_after_hint(&self, d: int) -> int {
        let s = self.hint_group() + d;
        if s < N { s } else { s - N }
    }

    /// How many steps after the hint the search visits group `g`.
    pub open spec fn distance_from_hint(&self, g: int) -> int {
        if g >= self.hint_group() { g - self.hint_group() } else { g - self.hint_group() + N }
    }

    /// Whether some index is free.
    pub open spec fn has_free(&self) -> bool {
        exists|g: int| 0 <= g < N && self.groups()[g] != 0u32
    }

    /// The index an allocation of one index hands out: the lowest free index
    /// of the first group, from the hint onwards and wrapping around, that
    /// has one.
    pub open spec fn first_free_from_hint(&self, i: int) -> bool {
        let g = i / 32;
        let d = self.distance_from_hint(g);
        &&& 0 <= g < N
        &&& self.groups()[g] != 0u32
        &&& i % 32 == u32_trailing_zeros(self.groups()[g]) as int
        &&& forall|e: int| 0 <= e < d ==> #[trigger] self.groups()[self.group_after_hint(e)] == 0u32
    }

    /// A full allocator: every index is free.
    pub fn new() -> (r: Self)
        requires
            N <= MAX_GROUPS,
            32 * N <= usize::MAX,
        ensures
            r.wf(),
            r.hint_group() == 0,
            forall|i: int| 0 <= i < 32 * N ==> r.is_free(i),
    {
        let r = Self { hint: 0, bits: [0xffff_ffffu32; N] };
        assert forall|i: int| 0 <= i < 32 * N implies r.is_free(i) by {
            let k = (i % 32) as u32;
            assert((0xffff_ffffu32 >> k) & 1u32 == 1u32) by (bit_vector)
                requires k < 32;
        }
        r
    }
}

/// The set of integers in `[lo, hi)`.
pub open spec fn index_range(lo: int, hi: int) -> Set<int> {
    Set::new(|i: int| lo <= i < hi)
}

impl<const N: usize> IdxAllocator for NaiveBitmapIdxAllocator<N> {
    open spec fn ready(&self) -> bool {
        self.wf()
    }

    open spec fn releasable(&self, base: usize, size: usize) -> bool {
        base + size <= 32 * N
    }

    /// Fixed placement is not supported.
    fn allocate_fixed(&mut self, base: usize, size: usize) -> (r: Result<(), AllocError>)
        ensures
            r == Err::<(), AllocError>(AllocError::Unsupported),
            final(self)@ == old(self)@,
    {
        Err(AllocError::Unsupported)
    }

    /// Allocates one index: only `align == 1` and `size == 1` are supported.
    /// The search starts at the hinted group and wraps around; within a group
    /// the lowest free index is taken.
    fn allocate(&mut self, align: usize, size: usize) -> (r: Result<usize, AllocError>)
        ensures
            !(align == 1 && size == 1) ==> r == Err::<usize, AllocError>(AllocError::Unsupported)
                && final(self)@ == old(self)@,
            align == 1 && size == 1 && !old(self).has_free() ==> r == Err::<usize, AllocError>(
                AllocError::Failed,
            ) && final(self)@ == old(self)@,
            align == 1 && size == 1 && old(self).has_free() ==> r is Ok,
            r matches Ok(i) ==> {
                &&& old(self).first_free_from_hint(i as int)
                &&& old(self).is_free(i as int)
                &&& final(self).free_set() == old(self).free_set().remove(i as int)
                &&& final(self).hint_group() == (if final(self).groups()[i as int / 32] != 0u32 {
                    (i / 32) as int
                } else {
                    old(self).hint_group()
                })
            },
    {
        if size != 1 || align != 1 {
            return Err(AllocError::Unsupported);
        }
        let n = N;
        if n == 0 {
            return Err(AllocError::Failed);
        }
        let mut g: usize = self.hint as usize;
        let mut retry: usize = 0;
        while retry < n
            invariant
                n == N,
                n > 0,
                size == 1 && align == 1,
                self.wf(),
                *self == *old(self),
                0 <= retry <= n,
                retry < n ==> g as int == self.group_after_hint(retry as int),
                forall|e: int| 0 <= e < retry ==> #[trigger] self.groups()[self.group_after_hint(e)] == 0u32,
            decreases n - retry,
        {
            let word = self.bits[g];
            if word != 0 {
                proof {
                    axiom_u32_trailing_zeros(word);
                }
                let j = word.trailing_zeros();
                let rest = word & !(1u32 << j);
                self.bits[g] = rest;
                if rest != 0 {
                    self.hint = g as u32;
                }
                let i = g * 32 + j as usize;
                proof {
                    let o = old(self);
                    assert(i as int / 32 == g as int);
                    assert(i as int % 32 == j as int);
                    assert(o.distance_from_hint(g as int) == retry as int);
                    assert(o.first_free_from_hint(i as int));
                    assert(o.is_free(i as int));
                    assert forall|k: int| #[trigger] self.free_set().contains(k)
                        == o.free_set().remove(i as int).contains(k) by {
                        if 0 <= k < 32 * N {
                            if k / 32 == g as int {
                                lemma_clear_bit(word, j, (k % 32) as u32);
                            } else {
                                assert(self.groups()[k / 32] == o.groups()[k / 32]);
                            }
                        }
                    }
                    assert(self.free_set() =~= o.free_set().remove(i as int));
                }
                return Ok(i);
            }
            g = if g + 1 == n { 0 } else { g + 1 };
            retry += 1;
        }
        proof {
            assert forall|g0: int| 0 <= g0 < N implies self.groups()[g0] == 0u32 by {
                let e = self.distance_from_hint(g0);
                assert(self.group_after_hint(e) == g0);
            }
        }
        Err(AllocError::Failed)
    }

    /// Marks every index of `[base, base + size)` free; the hint moves to the
    /// group of the last index given back.
    fn deallocate(&mut self, base: usize, size: usize)
        ensures
            final(self).free_set() == old(self).free_set().union(
                index_range(base as int, base + size),
            ),
            final(self).hint_group() == (if size > 0 {
                (base + size - 1) / 32
            } else {
                old(self).hint_group()
            }),
    {
        let end = base + size;
        let mut idx = base;
        while idx < end
            invariant
                end == base + size,
                end <= 32 * N,
                base <= idx <= end,
                self.wf(),
                self.free_set() == old(self).free_set().union(index_range(base as int, idx as int)),
                self.hint_group() == (if idx > base {
                    (idx - 1) / 32
                } else {
                    old(self).hint_group()
                }),
            decreases end - idx,
        {
            let g = idx / 32;
            let b = (idx % 32) as u32;
            let ghost before = *self;
            let word = self.bits[g];
            self.bits[g] = word | (1u32 << b);
            self.hint = (idx / 32) as u32;
            proof {
                assert forall|k: int| #[trigger] self.free_set().contains(k)
                    == before.free_set().insert(idx as int).contains(k) by {
                    if 0 <= k < 32 * N {
                        if k / 32 == g as int {
                            lemma_set_bit(word, b, (k % 32) as u32);
                        } else {
                            assert(self.groups()[k / 32] == before.groups()[k / 32]);
                        }
                    }
                }
                assert(self.free_set() =~= before.free_set().insert(idx as int));
                assert(index_range(base as int, idx + 1) =~= index_range(base as int, idx as int).insert(
                    idx as int,
                ));
                assert(self.free_set() =~= old(self).free_set().union(
                    index_range(base as int, idx + 1),
                ));
            }
            idx += 1;
        }
    }
}

/// Giving back an index that an allocation just handed out restores the set
/// of free indices that the allocator had before the allocation.
pub proof fn law_allocate_then_release<const N: usize>(
    before: NaiveBitmapIdxAllocator<N>,
    i: int,
)
    requires
        before.is_free(i),
    ensures
        before.free_set().remove(i).union(index_range(i, i + 1)) == before.free_set(),
{
    assert(before.free_set().remove(i).union(index_range(i, i + 1)) =~= before.free_set());
}

proof fn lemma_clear_bit(w: u32, j: u32, k: u32)
    requires
        j < 32,
        k < 32,
    ensures
        ((w & !(1u32 << j)) >> k) & 1u32 == (if k == j { 0u32 } else { (w >> k) & 1u32 }),
{
    assert(((w & !(1u32 << j)) >> k) & 1u32 == (if k == j { 0u32 } else { (w >> k) & 1u32 }))
        by (bit_vector)
        requires j < 32, k < 32;
}

proof fn lemma_set_bit(w: u32, j: u32, k: u32)
    requires
        j < 32,
        k < 32,
    ensures
        ((w | (1u32 << j)) >> k) & 1u32 == (if k == j { 1u32 } else { (w >> k) & 1u32 }),
{
    assert(((w | (1u32 << j)) >> k) & 1u32 == (if k == j { 1u32 } else { (w >> k) & 1u32 }))
        by (bit_vector)
        requires j < 32, k < 32;
}

} // verus!
