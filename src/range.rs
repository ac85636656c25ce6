use vstd::prelude::*;

use std::ops::{Range, RangeFull, RangeInclusive};

verus! {

/// A bound of a range with no exclusive bounds.
pub enum FixedBound<T> {
    Included(T),
    Unbounded,
}

/// The value of a bound, if it has one.
pub open spec fn bound_value<T>(b: FixedBound<&T>) -> Option<T> {
    match b {
        FixedBound::Included(t) => Some(*t),
        FixedBound::Unbounded => None,
    }
}

/// A range whose bounds, where present, are inclusive.
pub trait FixedRangeBounds<T> {
    /// The lower bound, if any.
    spec fn start_spec(&self) -> Option<T>;

    /// The upper bound, if any.
    spec fn end_spec(&self) -> Option<T>;

    /// Start bound.
    fn start_bound(&self) -> (r: FixedBound<&T>)
        ensures
            bound_value(r) == self.start_spec(),
    ;

    /// End bound.
    fn end_bound(&self) -> (r: FixedBound<&T>)
        ensures
            bound_value(r) == self.end_spec(),
    ;
}

/// Relies on `RangeInclusive::start`: it returns the lower bound the range was
/// made with.
pub assume_specification<Idx>[ RangeInclusive::<Idx>::start ](r: &RangeInclusive<Idx>) -> (ret: &Idx)
    ensures
        *ret == r@.start,
;

/// Relies on `RangeInclusive::end`: it returns the upper bound the range was
/// made with.
pub assume_specification<Idx>[ RangeInclusive::<Idx>::end ](r: &RangeInclusive<Idx>) -> (ret: &Idx)
    ensures
        *ret == r@.end,
;

impl<T> FixedRangeBounds<T> for RangeInclusive<T> {
    open spec fn start_spec(&self) -> Option<T> {
        Some(self@.start)
    }

    open spec fn end_spec(&self) -> Option<T> {
        Some(self@.end)
    }

    fn start_bound(&self) -> (r: FixedBound<&T>) {
        FixedBound::Included(self.start())
    }

    fn end_bound(&self) -> (r: FixedBound<&T>) {
        FixedBound::Included(self.end())
    }
}

/// The unbounded range `..`, carried as an opaque value.
#[verifier::external_type_specification]
#[verifier::external_body]
pub struct ExRangeFull(RangeFull);

impl<T> FixedRangeBounds<T> for RangeFull {
    open spec fn start_spec(&self) -> Option<T> {
        None
    }

    open spec fn end_spec(&self) -> Option<T> {
        None
    }

    fn start_bound(&self) -> (r: FixedBound<&T>) {
        FixedBound::Unbounded
    }

    fn end_bound(&self) -> (r: FixedBound<&T>) {
        FixedBound::Unbounded
    }
}

/// A bound of an index range.
#[derive(Debug, Clone, Copy, PartialEq, Eq)]
pub enum IndexBound {
    Included(usize),
    Excluded(usize),
    Unbounded,
}

/// First index of a range that starts at `b`.
pub open spec fn start_index(b: IndexBound) -> int {
    match b {
        IndexBound::Included(i) => i as int,
        IndexBound::Excluded(i) => i + 1,
        IndexBound::Unbounded => 0,
    }
}

/// One past the last index of a range that ends at `b`, in a sequence of
/// length `len`.
pub open spec fn end_index(len: usize, b: IndexBound) -> int {
    match b {
        IndexBound::Included(i) => i + 1,
        IndexBound::Excluded(i) => i as int,
        IndexBound::Unbounded => len as int,
    }
}

/// The range `start..end` that the bounds select, as slicing a sequence of
/// length `len` would use it.
pub fn index_range(len: usize, start: IndexBound, end: IndexBound) -> (r: Range<usize>)
    requires
        start_index(start) <= usize::MAX,
        end_index(len, end) <= usize::MAX,
    ensures
        r.start == start_index(start),
        r.end == end_index(len, end),
{
    Range {
        start: match start {
            IndexBound::Included(i) => i,
            IndexBound::Excluded(i) => i + 1,
            IndexBound::Unbounded => 0,
        },
        end: match end {
            IndexBound::Included(i) => i + 1,
            IndexBound::Excluded(i) => i,
            IndexBound::Unbounded => len,
        },
    }
}

} // verus!
