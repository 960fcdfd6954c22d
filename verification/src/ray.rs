//! Rays: an origin, a direction, and a time stamp used to place moving
//! primitives.

use crate::vector::{bounded, vadd, vscale, Point, Vector3, V3};
use vstd::prelude::*;

verus! {

#[derive(Clone, Copy, PartialEq, Eq, Structural, Debug)]
pub struct Ray {
    pub origin: Point,
    pub direction: Vector3,
    pub time: i64,
}

/// The point reached after parameter `t` along the ray.
pub open spec fn ray_at(origin: V3, direction: V3, t: int) -> V3 {
    vadd(origin, vscale(direction, t))
}

impl Ray {
    pub fn new(origin: Point, direction: Vector3, time: i64) -> (r: Self)
        ensures
            r.origin == origin,
            r.direction == direction,
            r.time == time,
    {
        Self { origin, direction, time }
    }

    pub fn at(&self, t: i64) -> (r: Point)
        requires
            bounded(self.origin@, 0x10000000000),
            bounded(self.direction@, 0x8000000),
            -0x40000000 <= t <= 0x40000000,
        ensures
            r@ == ray_at(self.origin@, self.direction@, t as int),
            bounded(r@, 0x40000000000),
    {
        proof {
            crate::fixed::lemma_fmul_bound(self.direction@.x, t as int, 0x8000000, 0x40000000);
            crate::fixed::lemma_fmul_bound(self.direction@.y, t as int, 0x8000000, 0x40000000);
            crate::fixed::lemma_fmul_bound(self.direction@.z, t as int, 0x8000000, 0x40000000);
        }
        self.origin.add(&self.direction.scale(t))
    }
}

} // verus!
