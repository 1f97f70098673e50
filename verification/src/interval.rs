//! Closed real intervals used to bound the ray parameter `t` and to
//! clamp colors.

use crate::fx::{sub_raw, Fx, MAX_RAW};
use vstd::prelude::*;

verus! {

/// The model of an interval: its raw endpoints.
pub ghost struct IntervalS {
    pub min: int,
    pub max: int,
}

/// Inclusive membership.
pub open spec fn s_contains(i: IntervalS, x: int) -> bool {
    i.min <= x <= i.max
}

/// Strict membership, used for intersection roots so that a hit exactly
/// on a bound does not qualify.
pub open spec fn s_surrounds(i: IntervalS, x: int) -> bool {
    i.min < x < i.max
}

/// Saturation of `x` into the interval.
pub open spec fn s_clamp(i: IntervalS, x: int) -> int {
    if x < i.min {
        i.min
    } else if x > i.max {
        i.max
    } else {
        x
    }
}

/// The interval's width.
pub open spec fn s_size(i: IntervalS) -> int {
    sub_raw(i.max, i.min)
}

/// A closed interval `[min, max]` of fixed-point values.  The default
/// interval runs from the largest value down to the smallest and so
/// matches nothing; it seeds closest-hit searches.
#[derive(Clone, Copy, PartialEq, Eq, Structural, Debug)]
pub struct Interval {
    pub min: Fx,
    pub max: Fx,
}

impl View for Interval {
    type V = IntervalS;

    open spec fn view(&self) -> IntervalS {
        IntervalS { min: self.min@, max: self.max@ }
    }
}

impl Interval {
    /// The empty interval: `[+MAX, -MAX]`, which contains nothing.
    pub fn new() -> (r: Self)
        ensures
            r@ == (IntervalS { min: MAX_RAW as int, max: -(MAX_RAW as int) }),
    {
        Self { min: Fx { raw: MAX_RAW }, max: Fx { raw: -MAX_RAW } }
    }

    /// The interval `[min, max]`.
    pub fn new_with_values(min: Fx, max: Fx) -> (r: Self)
        ensures
            r@ == (IntervalS { min: min@, max: max@ }),
    {
        Self { min, max }
    }

    /// Whether `x` lies in the closed interval.
    pub fn contains(&self, x: Fx) -> (r: bool)
        ensures
            r == s_contains(self@, x@),
    {
        self.min.raw <= x.raw && x.raw <= self.max.raw
    }

    /// Whether `x` lies strictly inside the interval.
    pub fn surrounds(&self, x: Fx) -> (r: bool)
        ensures
            r == s_surrounds(self@, x@),
    {
        self.min.raw < x.raw && x.raw < self.max.raw
    }

    /// The interval's width.
    pub fn size(&self) -> (r: Fx)
        ensures
            r@ == s_size(self@),
    {
        self.max.sub(self.min)
    }

    /// Saturate `x` into the interval.
    pub fn clamp(&self, x: Fx) -> (r: Fx)
        ensures
            r@ == s_clamp(self@, x@),
    {
        if x.raw < self.min.raw {
            self.min
        } else if x.raw > self.max.raw {
            self.max
        } else {
            x
        }
    }
}

} // verus!
