//! Closed scalar ranges on the fixed-point grid, used both for admissible
//! ray parameters and for clamping color channels.

use vstd::prelude::*;

verus! {

#[derive(Clone, Copy, PartialEq, Eq, Structural, Debug)]
pub struct Interval {
    pub min: i64,
    pub max: i64,
}

/// The clamp of `x` into `[min, max]`.
pub open spec fn sclamp(min: int, max: int, x: int) -> int {
    if x < min {
        min
    } else if x > max {
        max
    } else {
        x
    }
}

impl Interval {
    pub fn new(min: i64, max: i64) -> (r: Self)
        ensures
            r.min == min,
            r.max == max,
    {
        Self { min, max }
    }

    pub fn contains(&self, x: i64) -> (r: bool)
        ensures
            r == (self.min <= x && x <= self.max),
    {
        self.min <= x && x <= self.max
    }

    pub fn surrounds(&self, x: i64) -> (r: bool)
        ensures
            r == (self.min < x && x < self.max),
    {
        self.min < x && x < self.max
    }

    pub fn clamp(&self, x: i64) -> (r: i64)
        requires
            self.min <= self.max,
        ensures
            r == sclamp(self.min as int, self.max as int, x as int),
    {
        if x < self.min {
            self.min
        } else if x > self.max {
            self.max
        } else {
            x
        }
    }
}

impl From<(i64, i64)> for Interval {
    fn from(val: (i64, i64)) -> (r: Interval) {
        Interval { min: val.0, max: val.1 }
    }
}

impl vstd::std_specs::convert::FromSpecImpl<(i64, i64)> for Interval {
    open spec fn obeys_from_spec() -> bool {
        true
    }

    open spec fn from_spec(val: (i64, i64)) -> Interval {
        Interval { min: val.0, max: val.1 }
    }
}

} // verus!
