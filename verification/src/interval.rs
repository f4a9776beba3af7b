//! A closed scalar range, used to bound valid intersection distances and to
//! clamp color channels.
//!
//! `contains` is inclusive on both bounds while `surrounds` is exclusive on
//! both: intersection tests use the strict predicate so a hit exactly at a
//! bound (for instance a scattered ray restarting on its own surface) is
//! rejected.

use vstd::prelude::*;

verus! {

use crate::fixed::Fx;

/// A scalar range `[min, max]`.
#[derive(Clone, Copy, PartialEq, Eq, Structural, Debug)]
pub struct Interval {
    pub min: Fx,
    pub max: Fx,
}

/// Inclusive membership.
pub open spec fn scontains(i: Interval, value: int) -> bool {
    i.min@ <= value <= i.max@
}

/// Strict-interior membership.
pub open spec fn ssurrounds(i: Interval, value: int) -> bool {
    i.min@ < value < i.max@
}

/// Saturation of a value into the range.
pub open spec fn sclamp(i: Interval, value: int) -> int {
    if value < i.min@ {
        i.min@
    } else if value > i.max@ {
        i.max@
    } else {
        value
    }
}

impl Interval {
    /// The empty interval: every representable scalar lies outside it.
    pub fn new() -> (r: Self)
        ensures
            r.min@ == i64::MAX as int,
            r.max@ == i64::MIN as int,
    {
        Interval { min: Fx::max_value(), max: Fx::min_value() }
    }

    /// The interval with the given bounds.
    pub fn with_bounds(min: Fx, max: Fx) -> (r: Self)
        ensures
            r == (Interval { min, max }),
    {
        Interval { min, max }
    }

    /// The width of the interval.
    pub fn size(&self) -> (r: Fx)
        ensures
            r@ == crate::fixed::fsub(self.max@, self.min@),
    {
        self.max.sub(self.min)
    }

    /// Whether `value` lies in the interval, bounds included.
    pub fn contains(&self, value: Fx) -> (r: bool)
        ensures
            r == scontains(*self, value@),
    {
        value.ge(self.min) && value.le(self.max)
    }

    /// Whether `value` lies strictly inside the interval.
    pub fn surrounds(&self, value: Fx) -> (r: bool)
        ensures
            r == ssurrounds(*self, value@),
    {
        self.min.lt(value) && value.lt(self.max)
    }

    /// `value` saturated into the interval.
    pub fn clamp(&self, value: Fx) -> (r: Fx)
        ensures
            r@ == sclamp(*self, value@),
    {
        if value.lt(self.min) {
            self.min
        } else if value.gt(self.max) {
            self.max
        } else {
            value
        }
    }
}

} // verus!
