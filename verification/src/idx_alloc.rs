//! The interface of index allocators: allocators that hand out integers, for
//! instance page frame numbers.
use vstd::prelude::*;

verus! {

/// Why an allocation did not succeed.
#[derive(PartialEq, Eq, Structural, Debug)]
pub enum AllocError {
    /// No space meets all the conditions of the request.
    Failed,
    /// The allocator does not support requests of this form.
    Unsupported,
}

/// An allocator of indices.
pub trait IdxAllocator {
    /// The allocator's own invariant, which each operation keeps.
    spec fn ready(&self) -> bool;

    /// Whether `[base, base + size)` may be given back to the allocator.
    spec fn releasable(&self, base: usize, size: usize) -> bool;

    /// Allocates `size` indices at `base`.
    fn allocate_fixed(&mut self, base: usize, size: usize) -> (r: Result<(), AllocError>)
        requires
            old(self).ready(),
        ensures
            final(self).ready(),
    ;

    /// Finds a place aligned to `align` for `size` indices, allocates it and
    /// returns its first index.
    fn allocate(&mut self, align: usize, size: usize) -> (r: Result<usize, AllocError>)
        requires
            old(self).ready(),
        ensures
            final(self).ready(),
    ;

    /// Gives `[base, base + size)` back.
    fn deallocate(&mut self, base: usize, size: usize)
        requires
            old(self).ready(),
            old(self).releasable(base, size),
        ensures
            final(self).ready(),
    ;
}

} // verus!
