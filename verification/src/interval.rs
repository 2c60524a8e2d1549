//! An open numeric range used to decide which ray-parameter roots count as
//! real intersections.

use vstd::prelude::*;

verus! {

/// An open interval of fixed-point values.
#[derive(Clone, Copy, Debug, PartialEq, Eq, Structural)]
pub struct Interval {
    pub min: i64,
    pub max: i64,
}

impl Interval {
    /// A value is strictly inside the interval.
    pub open spec fn surrounds_s(self, x: int) -> bool {
        self.min < x && x < self.max
    }

    /// Builds an interval from its bounds.
    pub fn new(min: i64, max: i64) -> (r: Interval)
        requires
            min < max,
        ensures
            r.min == min,
            r.max == max,
    {
        Interval { min, max }
    }

    /// Whether a value lies strictly between the bounds.
    pub fn surrounds(self, x: i64) -> (r: bool)
        ensures
            r == self.surrounds_s(x as int),
    {
        self.min < x && x < self.max
    }
}

} // verus!
