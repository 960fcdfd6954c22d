//! Spheres, static or linearly moving, with quadratic root-finding on the
//! grid and latitude/longitude surface coordinates.

use crate::fixed::{fdiv, fmul, fsqrt, fx_div, fx_mul, fx_sqrt, lemma_fmul_nonneg, FX_ONE};
use crate::hittable::{HitRecord, SpecHit};
use crate::material::{surface_wf, Surface};
use crate::ray::{ray_at, Ray};
use crate::shape::in_range;
use crate::trig::{sacos, satan2, PI_FX, TWO_PI_FX};
use crate::vector::{bounded, vadd, vdivs, vdot, vlen2, vneg, vscale, vsub, Point, Vector3, V3};
use vstd::prelude::*;

verus! {

pub struct Sphere {
    pub center: Point,
    pub radius: i64,
    pub radius_squared: i64,
    pub material: Surface,
    pub is_moving: bool,
    pub center_vec: Point,
}

impl Sphere {
    pub open spec fn wf(&self) -> bool {
        &&& in_range(self.center@)
        &&& bounded(self.center_vec@, 0x8000000)
        &&& 0 < self.radius <= 0x4000000
        &&& self.radius_squared == fmul(self.radius as int, self.radius as int)
        &&& surface_wf(self.material@)
    }

    /// A static sphere.
    pub fn new(center: Point, radius: i64, material: Surface) -> (r: Self)
        requires
            in_range(center@),
            0 < radius <= 0x4000000,
            surface_wf(material@),
        ensures
            r.wf(),
            r.center == center,
            r.radius == radius,
            r.material@ == material@,
            !r.is_moving,
            r.center_vec == center,
    {
        proof {
            crate::fixed::lemma_fmul_bound(radius as int, radius as int, 0x4000000, 0x4000000);
        }
        Self {
            center,
            radius,
            radius_squared: fx_mul(radius, radius),
            material,
            is_moving: false,
            center_vec: center,
        }
    }

    /// A sphere moving linearly from one center to another over the shutter
    /// interval.
    pub fn new_moving(center1: Point, center2: Point, radius: i64, material: Surface) -> (r: Self)
        requires
            in_range(center1@),
            in_range(center2@),
            0 < radius <= 0x4000000,
            surface_wf(material@),
        ensures
            r.wf(),
            r.center == center1,
            r.radius == radius,
            r.material@ == material@,
            r.is_moving,
            r.center_vec@ == vsub(center2@, center1@),
    {
        proof {
            crate::fixed::lemma_fmul_bound(radius as int, radius as int, 0x4000000, 0x4000000);
        }
        Self {
            center: center1,
            radius,
            radius_squared: fx_mul(radius, radius),
            material,
            is_moving: true,
            center_vec: center2.sub(&center1),
        }
    }

    /// The interpolated center at a sample time.
    pub open spec fn scenter(&self, time: int) -> V3 {
        vadd(self.center@, vscale(self.center_vec@, time))
    }

    /// The center the hit test uses at a sample time.
    pub open spec fn center_at(&self, time: int) -> V3 {
        if self.is_moving {
            self.scenter(time)
        } else {
            self.center@
        }
    }

    /// The interpolated center, exactly `scenter`.
    pub fn center(&self, time: i64) -> (r: Point)
        requires
            self.wf(),
            0 <= time <= FX_ONE,
        ensures
            r@ == self.scenter(time as int),
            bounded(r@, 0x10000000),
    {
        proof {
            crate::fixed::lemma_fmul_bound(self.center_vec@.x, time as int, 0x8000000, 65536);
            crate::fixed::lemma_fmul_bound(self.center_vec@.y, time as int, 0x8000000, 65536);
            crate::fixed::lemma_fmul_bound(self.center_vec@.z, time as int, 0x8000000, 65536);
        }
        self.center.add(&self.center_vec.scale(time))
    }

    /// Longitude of a point on the unit sphere.
    pub open spec fn sphere_u(p: V3) -> int {
        fdiv(satan2(-p.z, p.x) + PI_FX, TWO_PI_FX as int)
    }

    /// Latitude of a point on the unit sphere.
    pub open spec fn sphere_v(p: V3) -> int {
        fdiv(sacos(crate::interval::sclamp(-(FX_ONE as int), FX_ONE as int, -p.y)), PI_FX as int)
    }

    /// Surface coordinates of a point on the unit sphere: angle around the
    /// vertical axis, and angle up from the south pole, both on the unit
    /// grid range.
    fn get_sphere_uv(p: &Vector3) -> (r: (i64, i64))
        requires
            bounded(p@, 0x40000000),
        ensures
            r.0 == Self::sphere_u(p@),
            r.1 == Self::sphere_v(p@),
            0 <= r.0 <= FX_ONE,
            0 <= r.1 <= FX_ONE,
    {
        let cv = if -p.y < -FX_ONE {
            -FX_ONE
        } else if -p.y > FX_ONE {
            FX_ONE
        } else {
            -p.y
        };
        let theta = crate::trig::acos_fx(cv);
        let phi = crate::trig::atan2_fx(-p.z, p.x) + PI_FX;
        proof {
            crate::fixed::lemma_fdiv_ratio_unit(phi as int, TWO_PI_FX as int);
            crate::fixed::lemma_fdiv_ratio_unit(theta as int, PI_FX as int);
        }
        let u = fx_div(phi, TWO_PI_FX);
        let v = fx_div(theta, PI_FX);
        (u, v)
    }

    /// The two quadratic roots along the ray, nearest first, when the
    /// discriminant admits any.
    pub open spec fn roots(&self, orig: V3, dir: V3, time: int) -> Option<(int, int)> {
        let center = self.center_at(time);
        let oc = vsub(orig, center);
        let a = vlen2(dir);
        let half_b = vdot(oc, dir);
        let c = vlen2(oc) - self.radius_squared;
        let disc = fmul(half_b, half_b) - fmul(a, c);
        if a <= 0 || disc < 0 {
            None
        } else {
            let sq = fsqrt(disc);
            Some((fdiv(-half_b - sq, a), fdiv(-half_b + sq, a)))
        }
    }

    /// The admissible parameter the hit test reports: the near root if it
    /// lies in the interval, else the far root, else nothing.
    pub open spec fn hit_t(&self, orig: V3, dir: V3, time: int, tmin: int, tmax: int) -> Option<
        int,
    > {
        match self.roots(orig, dir, time) {
            None => None,
            Some((r1, r2)) => if tmin <= r1 <= tmax {
                Some(r1)
            } else if tmin <= r2 <= tmax {
                Some(r2)
            } else {
                None
            },
        }
    }

    /// The record reported for a hit at parameter `t`, when the outward
    /// normal stays on the grid.
    pub open spec fn record_at(&self, orig: V3, dir: V3, time: int, t: int) -> Option<SpecHit> {
        let center = self.center_at(time);
        let p = ray_at(orig, dir, t);
        let outward = vdivs(vsub(p, center), self.radius as int);
        if !bounded(outward, 0x40000000) {
            None
        } else {
            let ff = vdot(dir, outward) < 0;
            Some(
                SpecHit {
                    p,
                    normal: if ff {
                        outward
                    } else {
                        vneg(outward)
                    },
                    t,
                    front_face: ff,
                    u: Self::sphere_u(outward),
                    v: Self::sphere_v(outward),
                    material: self.material@,
                },
            )
        }
    }

    /// The full hit result on the model.
    pub open spec fn hit_spec(&self, orig: V3, dir: V3, time: int, tmin: int, tmax: int) -> Option<
        SpecHit,
    > {
        match self.hit_t(orig, dir, time, tmin, tmax) {
            None => None,
            Some(t) => self.record_at(orig, dir, time, t),
        }
    }

    /// Ray/sphere intersection: exactly `hit_spec` on the model.
    pub fn hit(&self, ray: &Ray, ray_t: &crate::interval::Interval) -> (r: Option<HitRecord>)
        requires
            self.wf(),
            bounded(ray.origin@, 0x10000000),
            bounded(ray.direction@, 0x1000000),
            0 <= ray.time <= FX_ONE,
            -0x40000000 <= ray_t.min,
            ray_t.max <= 0x40000000,
        ensures
            match self.hit_spec(
                ray.origin@,
                ray.direction@,
                ray.time as int,
                ray_t.min as int,
                ray_t.max as int,
            ) {
                None => r is None,
                Some(h) => match r {
                    Some(hr) => hr@ == h,
                    None => false,
                },
            },
            match r {
                Some(hr) => bounded(hr.p@, 0x40000000000) && bounded(hr.normal@, 0x40000000),
                None => true,
            },
    {
        let center = if self.is_moving {
            self.center(ray.time)
        } else {
            self.center
        };
        let oc = ray.origin.sub(&center);
        proof {
            crate::vector::lemma_dot_fits(ray.direction@, ray.direction@, 0x1000000, 0x1000000);
            crate::vector::lemma_dot_fits(oc@, ray.direction@, 0x20000000, 0x1000000);
            crate::vector::lemma_dot_fits(oc@, oc@, 0x20000000, 0x20000000);
            crate::vector::lemma_vlen2_nonneg(ray.direction@);
            crate::vector::lemma_vlen2_nonneg(oc@);
        }
        let a = ray.direction.length_squared();
        let half_b = oc.dot(&ray.direction);
        let c = oc.length_squared() - self.radius_squared;
        proof {
            crate::fixed::lemma_fmul_bound(self.radius as int, self.radius as int, 0x4000000, 0x4000000);
            crate::fixed::lemma_fmul_nonneg(self.radius as int, self.radius as int);
            crate::fixed::lemma_fmul_bound(half_b as int, half_b as int, 412316860419, 412316860419);
            crate::fixed::lemma_fmul_bound(a as int, c as int, 12884901891, 13262859010051);
        }
        let disc = fx_mul(half_b, half_b) - fx_mul(a, c);
        if a <= 0 || disc < 0 {
            return None;
        }
        let sqrtd = fx_sqrt(disc);
        proof {
            crate::fixed::lemma_fdiv_bound(-half_b as int - sqrtd as int, a as int, 1511828488196);
            crate::fixed::lemma_fdiv_bound(-half_b as int + sqrtd as int, a as int, 1511828488196);
            crate::fixed::lemma_fdiv_mono_num(
                -half_b as int - sqrtd as int,
                -half_b as int + sqrtd as int,
                a as int,
            );
        }
        let mut root = fx_div(-half_b - sqrtd, a);
        if !ray_t.contains(root) {
            root = fx_div(-half_b + sqrtd, a);
            if !ray_t.contains(root) {
                return None;
            }
        }
        let point = ray.at(root);
        let pc = point.sub(&center);
        proof {
            crate::fixed::lemma_fdiv_bound(pc@.x, self.radius as int, 0x60000000000);
            crate::fixed::lemma_fdiv_bound(pc@.y, self.radius as int, 0x60000000000);
            crate::fixed::lemma_fdiv_bound(pc@.z, self.radius as int, 0x60000000000);
        }
        let outward_normal = pc.div(self.radius);
        if !(-0x40000000 <= outward_normal.x && outward_normal.x <= 0x40000000
            && -0x40000000 <= outward_normal.y && outward_normal.y <= 0x40000000
            && -0x40000000 <= outward_normal.z && outward_normal.z <= 0x40000000) {
            return None;
        }
        let uv = Self::get_sphere_uv(&outward_normal);
        proof {
            crate::vector::lemma_dot_fits(ray.direction@, outward_normal@, 0x1000000, 0x40000000);
        }
        let mut rec = HitRecord::new(
            point,
            outward_normal,
            root,
            self.material.clone(),
            false,
            uv.0,
            uv.1,
        );
        rec.set_face_normal(ray, &outward_normal);
        Some(rec)
    }
}

} // verus!
