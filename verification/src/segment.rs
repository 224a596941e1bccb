//! A mapped segment of an address space. Segments are ordered, and equal,
//! by their first virtual page.
use core::cmp::Ordering;
use vstd::prelude::*;
use vstd::std_specs::cmp::{PartialEqSpecImpl, PartialOrdSpecImpl};

verus! {

/// `count` pages mapped from virtual page `vbase` onto physical page
/// `pbase` with the given flags.
#[derive(Clone, Copy, Debug)]
pub struct Segment {
    pub vbase: usize,
    pub pbase: usize,
    pub count: usize,
    pub flags: usize,
}

impl PartialEq for Segment {
    fn eq(&self, other: &Segment) -> (r: bool) {
        self.vbase == other.vbase
    }
}

impl PartialEqSpecImpl for Segment {
    open spec fn obeys_eq_spec() -> bool {
        true
    }

    open spec fn eq_spec(&self, other: &Segment) -> bool {
        self.vbase == other.vbase
    }
}

/// How segments starting at virtual pages `a` and `b` compare.
pub open spec fn order_of(a: usize, b: usize) -> Option<Ordering> {
    if a < b {
        Some(Ordering::Less)
    } else if a == b {
        Some(Ordering::Equal)
    } else {
        Some(Ordering::Greater)
    }
}

impl PartialOrd for Segment {
    fn partial_cmp(&self, other: &Segment) -> (r: Option<Ordering>) {
        if self.vbase < other.vbase {
            Some(Ordering::Less)
        } else if self.vbase == other.vbase {
            Some(Ordering::Equal)
        } else {
            Some(Ordering::Greater)
        }
    }
}

impl PartialOrdSpecImpl for Segment {
    open spec fn obeys_partial_cmp_spec() -> bool {
        true
    }

    open spec fn partial_cmp_spec(&self, other: &Segment) -> Option<Ordering> {
        order_of(self.vbase, other.vbase)
    }
}

impl Segment {
    /// Whether `self` starts before `other`.
    pub fn starts_before(&self, other: &Segment) -> (r: bool)
        ensures
            r == (self.vbase < other.vbase),
    {
        self.vbase < other.vbase
    }

    /// Whether `self` and `other` start at the same virtual page, which is
    /// what makes segments equal.
    pub fn same_start(&self, other: &Segment) -> (r: bool)
        ensures
            r == (self.vbase == other.vbase),
    {
        self.vbase == other.vbase
    }
}

} // verus!
