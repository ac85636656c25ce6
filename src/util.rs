use vstd::prelude::*;

use std::cmp::Ordering;

use crate::range::{FixedBound, FixedRangeBounds};
use vstd::std_specs::cmp::{OrdSpec, PartialOrdSpec};

verus! {

/// The default value of `T`.
pub fn default<T: Default>() -> (r: T)
    ensures
        call_ensures(T::default, (), r),
{
    T::default()
}

/// The two values, smaller first; `b` comes first when they compare equal.
pub fn min_max<T: Ord>(a: T, b: T) -> (r: (T, T))
    ensures
        T::obeys_cmp_spec() ==> r == if a.cmp_spec(&b) == Ordering::Less {
            (a, b)
        } else {
            (b, a)
        },
{
    match a.cmp(&b) {
        Ordering::Less => (a, b),
        _ => (b, a),
    }
}

/// The two values compare (neither is a NaN-like value).
pub open spec fn comparable<T: PartialOrd>(a: T, b: T) -> bool {
    T::obeys_partial_cmp_spec() && a.partial_cmp_spec(&b) is Some
}

/// Whether `a` is strictly below `b`.
pub open spec fn below<T: PartialOrd>(a: T, b: T) -> bool {
    a.partial_cmp_spec(&b) == Some(Ordering::Less)
}

/// The larger of the two, as `partial_max` picks it.
pub open spec fn max_spec<T: PartialOrd>(a: T, b: T) -> T {
    if below(a, b) {
        b
    } else {
        a
    }
}

/// The smaller of the two, as `partial_min` picks it.
pub open spec fn min_spec<T: PartialOrd>(a: T, b: T) -> T {
    if below(a, b) {
        a
    } else {
        b
    }
}

/// `v` raised to the lower bound, if any.
pub open spec fn raised<T: PartialOrd>(v: T, lo: Option<T>) -> T {
    match lo {
        Some(l) => max_spec(v, l),
        None => v,
    }
}

/// `v` raised to the lower bound, then lowered to the upper bound.
pub open spec fn clamp_spec<T: PartialOrd>(v: T, lo: Option<T>, hi: Option<T>) -> T {
    match hi {
        Some(h) => min_spec(raised(v, lo), h),
        None => raised(v, lo),
    }
}

/// Minimum and maximum through `PartialOrd`, for values that compare.
pub trait PartialOrdExt: PartialOrd + Sized + Clone {
    /// The smaller of the two; `other` when they compare equal.
    fn partial_min(self, other: Self) -> (r: Self)
        requires
            comparable(self, other),
        ensures
            r == if below(self, other) {
                self
            } else {
                other
            },
    {
        self.partial_min_max(other).0
    }

    /// The larger of the two; `self` when they compare equal.
    fn partial_max(self, other: Self) -> (r: Self)
        requires
            comparable(self, other),
        ensures
            r == if below(self, other) {
                other
            } else {
                self
            },
    {
        self.partial_min_max(other).1
    }

    /// The two values, smaller first; `other` first when they compare equal.
    fn partial_min_max(self, other: Self) -> (r: (Self, Self))
        requires
            comparable(self, other),
        ensures
            r == if below(self, other) {
                (self, other)
            } else {
                (other, self)
            },
    {
        match self.partial_cmp(&other).unwrap() {
            Ordering::Less => (self, other),
            _ => (other, self),
        }
    }

    /// The value clamped into the range: raised to its lower bound, then
    /// lowered to its upper bound.
    fn clamp<R: FixedRangeBounds<Self>>(self, range: R) -> (r: Self) where Self: Copy
        requires
            range.start_spec() matches Some(l) ==> comparable(self, l),
            range.end_spec() matches Some(h) ==> comparable(raised(self, range.start_spec()), h),
        ensures
            r == clamp_spec(self, range.start_spec(), range.end_spec()),
    {
        let mut v = self;
        match range.start_bound() {
            FixedBound::Included(start) => v = v.partial_max(*start),
            FixedBound::Unbounded => {},
        }
        match range.end_bound() {
            FixedBound::Included(end) => v = v.partial_min(*end),
            FixedBound::Unbounded => {},
        }
        v
    }
}

impl<T: PartialOrd + Sized + Clone> PartialOrdExt for T {}

} // verus!
