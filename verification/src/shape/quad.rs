//! Axis-agnostic quadrilaterals: an origin point and two edge vectors, hit
//! by plane intersection and a projection into edge coordinates.

use crate::fixed::{fdiv, fmul, FX_ONE};
use crate::hittable::{HitRecord, SpecHit};
use crate::material::{surface_wf, Surface};
use crate::ray::{ray_at, Ray};
use crate::shape::in_range;
use crate::vector::{
    bounded, vcross, vdivs, vdot, vlen2, vneg, vsub, Point, Vector3, V3,
};
use vstd::prelude::*;

verus! {

pub struct Quad {
    pub q: Point,
    pub u: Vector3,
    pub v: Vector3,
    pub w: Vector3,
    pub material: Surface,
    pub normal: Vector3,
    pub d: i64,
}

/// The components of the edge-coordinate projector `n / (n . n)` stay small.
pub proof fn lemma_w_bound(n: V3)
    requires
        1 <= vlen2(n),
    ensures
        bounded(vdivs(n, vlen2(n)), 0x200000000),
{
    lemma_w_component(n.x, n.y, n.z);
    lemma_w_component(n.y, n.x, n.z);
    lemma_w_component(n.z, n.x, n.y);
}

proof fn lemma_w_component(x: int, y: int, z: int)
    requires
        1 <= fmul(x, x) + fmul(y, y) + fmul(z, z),
    ensures
        -0x200000000 <= fdiv(x, fmul(x, x) + fmul(y, y) + fmul(z, z)) <= 0x200000000,
{
    let nn = fmul(x, x) + fmul(y, y) + fmul(z, z);
    crate::vector::lemma_vlen2_nonneg(V3 { x, y, z });
    if -65536 <= x <= 65536 {
        crate::fixed::lemma_fdiv_bound(x, nn, 65536);
    } else {
        assert(0 <= x * x) by (nonlinear_arith);
        vstd::arithmetic::div_mod::lemma_fundamental_div_mod(x * x, FX_ONE as int);
        vstd::arithmetic::div_mod::lemma_mod_bound(x * x, FX_ONE as int);
        assert(fmul(x, x) * 65536 <= x * x) by (nonlinear_arith)
            requires
                x * x == 65536 * fmul(x, x) + (x * x) % 65536,
                0 <= (x * x) % 65536,
        ;
        assert(x * x <= fmul(x, x) * 65536 + 65535) by (nonlinear_arith)
            requires
                x * x == 65536 * fmul(x, x) + (x * x) % 65536,
                (x * x) % 65536 < 65536,
        ;
        assert(nn * 131072 >= iabs2(x) * 65536) by (nonlinear_arith)
            requires
                nn >= fmul(x, x),
                x * x <= fmul(x, x) * 65536 + 65535,
                (x < -65536 || x > 65536),
                iabs2(x) == (if x < 0 {
                    -x
                } else {
                    x
                }),
        ;
        let s = FX_ONE as int;
        vstd::arithmetic::div_mod::lemma_div_is_ordered(
            if x >= 0 {
                x * s
            } else {
                -x * s
            },
            nn * 131072,
            nn,
        );
        vstd::arithmetic::div_mod::lemma_div_by_multiple(131072, nn);
        assert(nn * 131072 == 131072 * nn) by (nonlinear_arith);
        if x >= 0 {
            assert(fdiv(x, nn) <= 131072);
            vstd::arithmetic::div_mod::lemma_div_is_ordered(0, x * s, nn);
        } else {
            assert((-x * s) / nn <= 131072);
            assert(-x * s == (-x) * s) by (nonlinear_arith);
            crate::fixed::lemma_div_neg_num((-x) * s, nn);
            assert(x * s == -((-x) * s)) by (nonlinear_arith);
            vstd::arithmetic::div_mod::lemma_div_is_ordered(x * s, 0, nn);
            vstd::arithmetic::div_mod::lemma_div_of0(nn);
        }
    }
}

/// Absolute value helper for the projector bound.
pub open spec fn iabs2(x: int) -> int {
    if x < 0 {
        -x
    } else {
        x
    }
}

impl Quad {
    pub open spec fn wf(&self) -> bool {
        &&& in_range(self.q@)
        &&& in_range(self.u@)
        &&& in_range(self.v@)
        &&& bounded(self.normal@, 3 * FX_ONE)
        &&& bounded(self.w@, 0x200000000)
        &&& -0x1000000000 <= self.d <= 0x1000000000
        &&& surface_wf(self.material@)
    }

    /// Builds the quad: plane normal, plane offset, and the projector used
    /// to read a hit point in edge coordinates.
    pub fn new(q: Point, u: Vector3, v: Vector3, material: Surface) -> (r: Self)
        requires
            in_range(q@),
            in_range(u@),
            in_range(v@),
            surface_wf(material@),
            1 <= vlen2(vcross(u@, v@)),
        ensures
            r.wf(),
            r.q == q,
            r.u == u,
            r.v == v,
            r.material@ == material@,
            r.normal@ == crate::vector::vunit(vcross(u@, v@)),
            r.d as int == vdot(crate::vector::vunit(vcross(u@, v@)), q@),
            r.w@ == vdivs(vcross(u@, v@), vlen2(vcross(u@, v@))),
    {
        proof {
            crate::vector::lemma_cross_fits(u@, v@, 0x4000000, 0x4000000);
        }
        let n = u.cross(&v);
        proof {
            crate::vector::lemma_dot_fits(n@, n@, 0x2000000002, 0x2000000002);
            crate::vector::lemma_vlen2_nonneg(n@);
            Vector3::lemma_vunit_bounded(n@);
            lemma_w_bound(n@);
            crate::fixed::lemma_fdiv_bound(n@.x, vlen2(n@), 0x2000000002);
            crate::fixed::lemma_fdiv_bound(n@.y, vlen2(n@), 0x2000000002);
            crate::fixed::lemma_fdiv_bound(n@.z, vlen2(n@), 0x2000000002);
        }
        let normal = n.unit();
        proof {
            crate::vector::lemma_dot_fits(normal@, q@, 196608, 0x4000000);
        }
        let d = normal.dot(&q);
        let nn = n.length_squared();
        let w = n.div(nn);
        Self { q, u, v, w, material, normal, d }
    }

    /// Interior test in edge coordinates: inside the unit square or not.
    pub open spec fn interior(alpha: int, beta: int) -> bool {
        0 <= alpha <= FX_ONE && 0 <= beta <= FX_ONE
    }

    /// Whether the plane coordinates land inside the quad, with the surface
    /// coordinates they become.
    pub fn is_interior(a: i64, b: i64) -> (r: Option<(i64, i64)>)
        ensures
            r == (if Self::interior(a as int, b as int) {
                Some((a, b))
            } else {
                None::<(i64, i64)>
            }),
    {
        if a < 0 || a > FX_ONE || b < 0 || b > FX_ONE {
            None
        } else {
            Some((a, b))
        }
    }

    /// The admissible plane-crossing parameter, when the crossing lands
    /// inside the quad and the world box.
    pub open spec fn hit_t(&self, orig: V3, dir: V3, tmin: int, tmax: int) -> Option<int> {
        let denom = vdot(self.normal@, dir);
        if denom == 0 {
            None
        } else {
            let t = fdiv(self.d - vdot(self.normal@, orig), denom);
            if !(tmin <= t <= tmax) {
                None
            } else {
                let ip = ray_at(orig, dir, t);
                if !bounded(ip, 0x10000000) {
                    None
                } else {
                    let ph = vsub(ip, self.q@);
                    let alpha = vdot(self.w@, vcross(ph, self.v@));
                    let beta = vdot(self.w@, vcross(self.u@, ph));
                    if Self::interior(alpha, beta) {
                        Some(t)
                    } else {
                        None
                    }
                }
            }
        }
    }

    /// The record reported for the crossing at parameter `t`.
    pub open spec fn record_at(&self, orig: V3, dir: V3, t: int) -> SpecHit {
        let ip = ray_at(orig, dir, t);
        let ph = vsub(ip, self.q@);
        let alpha = vdot(self.w@, vcross(ph, self.v@));
        let beta = vdot(self.w@, vcross(self.u@, ph));
        let ff = vdot(dir, self.normal@) < 0;
        SpecHit {
            p: ip,
            normal: if ff {
                self.normal@
            } else {
                vneg(self.normal@)
            },
            t,
            front_face: ff,
            u: alpha,
            v: beta,
            material: self.material@,
        }
    }

    /// The full hit result on the model.
    pub open spec fn hit_spec(&self, orig: V3, dir: V3, tmin: int, tmax: int) -> Option<SpecHit> {
        match self.hit_t(orig, dir, tmin, tmax) {
            None => None,
            Some(t) => Some(self.record_at(orig, dir, t)),
        }
    }

    /// Ray/quad intersection: exactly `hit_spec` on the model.
    pub fn hit(&self, ray: &Ray, ray_t: &crate::interval::Interval) -> (r: Option<HitRecord>)
        requires
            self.wf(),
            bounded(ray.origin@, 0x10000000),
            bounded(ray.direction@, 0x1000000),
            -0x40000000 <= ray_t.min,
            ray_t.max <= 0x40000000,
        ensures
            match self.hit_spec(ray.origin@, ray.direction@, ray_t.min as int, ray_t.max as int) {
                None => r is None,
                Some(h) => match r {
                    Some(hr) => hr@ == h,
                    None => false,
                },
            },
            match r {
                Some(hr) => bounded(hr.p@, 0x40000000000) && bounded(hr.normal@, 0x40000000),
                None => true,
            },
    {
        proof {
            crate::vector::lemma_dot_fits(self.normal@, ray.direction@, 196608, 0x1000000);
        }
        let denom = self.normal.dot(&ray.direction);
        if denom == 0 {
            return None;
        }
        proof {
            crate::vector::lemma_dot_fits(self.normal@, ray.origin@, 196608, 0x10000000);
            crate::fixed::lemma_fdiv_bound(
                self.d as int - vdot(self.normal@, ray.origin@),
                denom as int,
                0x2000000000,
            );
        }
        let t = crate::fixed::fx_div(self.d - self.normal.dot(&ray.origin), denom);
        if !ray_t.contains(t) {
            return None;
        }
        let intersection = ray.at(t);
        if !(-0x10000000 <= intersection.x && intersection.x <= 0x10000000 && -0x10000000
            <= intersection.y && intersection.y <= 0x10000000 && -0x10000000 <= intersection.z
            && intersection.z <= 0x10000000) {
            return None;
        }
        let planar_hitpoint = intersection.sub(&self.q);
        proof {
            crate::vector::lemma_cross_fits(planar_hitpoint@, self.v@, 0x14000000, 0x4000000);
            crate::vector::lemma_cross_fits(self.u@, planar_hitpoint@, 0x4000000, 0x14000000);
            crate::vector::lemma_dot_fits(
                self.w@,
                vcross(planar_hitpoint@, self.v@),
                0x200000000,
                0x10000000002,
            );
            crate::vector::lemma_dot_fits(
                self.w@,
                vcross(self.u@, planar_hitpoint@),
                0x200000000,
                0x10000000002,
            );
        }
        let alpha = self.w.dot(&planar_hitpoint.cross(&self.v));
        let beta = self.w.dot(&self.u.cross(&planar_hitpoint));
        let inside = Self::is_interior(alpha, beta);
        if inside.is_none() {
            return None;
        }
        proof {
            crate::vector::lemma_dot_fits(ray.direction@, self.normal@, 0x1000000, 196608);
        }
        let mut rec = HitRecord::new(
            intersection,
            Vector3::zero(),
            t,
            self.material.clone(),
            false,
            alpha,
            beta,
        );
        rec.set_face_normal(ray, &self.normal);
        Some(rec)
    }
}

} // verus!
