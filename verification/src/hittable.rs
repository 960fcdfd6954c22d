//! Hit records and the aggregate list of scene elements.

use crate::fixed::FX_ONE;
use crate::material::{Surface, SurfV};
use crate::vector::{bounded, dot_fits, vdot, vneg, Point, Vector3, V3};
use vstd::prelude::*;

verus! {

/// An ordered aggregate of scene elements; the hit test scans them all and
/// reports the nearest intersection.
pub struct HittableList {
    pub objects: Vec<crate::shape::Element>,
}

impl HittableList {
    pub fn new(objects: Vec<crate::shape::Element>) -> (r: Self)
        ensures
            r.objects@ == objects@,
    {
        Self { objects }
    }

    pub fn clear(&mut self)
        ensures
            final(self).objects@.len() == 0,
    {
        self.objects.clear()
    }

    pub fn add(&mut self, el: crate::shape::Element)
        ensures
            final(self).objects@ == old(self).objects@.push(el),
    {
        self.objects.push(el)
    }

    /// The nearest hit over all elements: a linear scan that shrinks the
    /// admissible interval to the best parameter found so far.  The result
    /// is exactly `seq_hit` on the model, which the aggregate lemmas relate
    /// to every single element's own hit.
    pub fn hit(&self, ray: &crate::ray::Ray, ray_t: &crate::interval::Interval) -> (r: Option<
        HitRecord,
    >)
        requires
            crate::shape::seq_wf(self.objects@),
            bounded(ray.origin@, 0x10000000),
            bounded(ray.direction@, 0x1000000),
            0 <= ray.time <= FX_ONE,
            -0x40000000 <= ray_t.min,
            ray_t.max <= 0x40000000,
        ensures
            match crate::shape::seq_hit(
                self.objects@,
                ray.origin@,
                ray.direction@,
                ray.time as int,
                ray_t.min as int,
                ray_t.max as int,
            ) {
                None => r is None,
                Some(h) => match r {
                    Some(hr) => hr@ == h,
                    None => false,
                },
            },
            match r {
                Some(hr) => bounded(hr.p@, 0x40000000000) && bounded(hr.normal@, 0x40000000),
                None => true,
            },
        decreases self,
    {
        let ghost s = self.objects@;
        let ghost orig = ray.origin@;
        let ghost dir = ray.direction@;
        let ghost time = ray.time as int;
        let ghost tmin = ray_t.min as int;
        let ghost tmax = ray_t.max as int;
        let mut rec: Option<HitRecord> = None;
        let mut closest_so_far: i64 = ray_t.max;
        let mut i: usize = 0;
        proof {
            assert(s.skip(0) =~= s);
        }
        while i < self.objects.len()
            invariant
                crate::shape::seq_wf(s),
                s == self.objects@,
                orig == ray.origin@,
                dir == ray.direction@,
                time == ray.time as int,
                tmin == ray_t.min as int,
                tmax == ray_t.max as int,
                bounded(ray.origin@, 0x10000000),
                bounded(ray.direction@, 0x1000000),
                0 <= ray.time <= FX_ONE,
                -0x40000000 <= tmin,
                tmax <= 0x40000000,
                i <= s.len(),
                match rec {
                    None => closest_so_far == tmax,
                    Some(hr) => closest_so_far == hr.t && tmin <= hr.t <= tmax && bounded(
                        hr.p@,
                        0x40000000000,
                    ) && bounded(hr.normal@, 0x40000000),
                },
                match crate::shape::seq_hit(s.skip(i as int), orig, dir, time, tmin, closest_so_far as int) {
                    Some(h2) => crate::shape::seq_hit(s, orig, dir, time, tmin, tmax) == Some(h2),
                    None => match (crate::shape::seq_hit(s, orig, dir, time, tmin, tmax), rec) {
                        (None, None) => true,
                        (Some(h), Some(hr)) => hr@ == h,
                        _ => false,
                    },
                },
            decreases s.len() - i,
        {
            proof {
                assert(s.skip(i as int)[0] == s[i as int]);
                assert(s.skip(i as int).drop_first() =~= s.skip(i as int + 1));
                crate::shape::lemma_elem_hit_range(
                    s[i as int],
                    orig,
                    dir,
                    time,
                    tmin,
                    closest_so_far as int,
                );
            }
            let e = &self.objects[i];
            let shrunk = crate::interval::Interval::new(ray_t.min, closest_so_far);
            let this_hit = e.hit(ray, &shrunk);
            match this_hit {
                Some(hit) => {
                    closest_so_far = hit.t;
                    rec = Some(hit);
                },
                None => {},
            }
            i = i + 1;
        }
        proof {
            assert(s.skip(s.len() as int).len() == 0);
        }
        rec
    }
}

impl Default for HittableList {
    /// The empty aggregate.
    fn default() -> (r: Self)
        ensures
            r.objects@.len() == 0,
    {
        Self { objects: Vec::new() }
    }
}

/// Mathematical model of a hit: where, how far, facing which way, and on
/// which surface.
pub ghost struct SpecHit {
    pub p: V3,
    pub normal: V3,
    pub t: int,
    pub front_face: bool,
    pub u: int,
    pub v: int,
    pub material: SurfV,
}

/// The result of a successful intersection.
pub struct HitRecord {
    pub p: Point,
    pub normal: Vector3,
    pub t: i64,
    pub material: Surface,
    pub front_face: bool,
    pub u: i64,
    pub v: i64,
}

impl View for HitRecord {
    type V = SpecHit;

    open spec fn view(&self) -> SpecHit {
        SpecHit {
            p: self.p@,
            normal: self.normal@,
            t: self.t as int,
            front_face: self.front_face,
            u: self.u as int,
            v: self.v as int,
            material: self.material@,
        }
    }
}

impl HitRecord {
    pub fn new(
        p: Point,
        normal: Vector3,
        t: i64,
        material: Surface,
        front_face: bool,
        u: i64,
        v: i64,
    ) -> (r: Self)
        ensures
            r.p == p,
            r.normal == normal,
            r.t == t,
            r.material@ == material@,
            r.front_face == front_face,
            r.u == u,
            r.v == v,
    {
        Self { p, normal, t, material, front_face, u, v }
    }

    /// Orients the stored normal against the incoming ray; the parameter is
    /// assumed to have unit length.
    pub fn set_face_normal(&mut self, ray: &crate::ray::Ray, outward_normal: &Vector3)
        requires
            dot_fits(ray.direction@, outward_normal@),
            bounded(outward_normal@, 0x100000000),
        ensures
            final(self).front_face == (vdot(ray.direction@, outward_normal@) < 0),
            final(self).normal@ == (if vdot(ray.direction@, outward_normal@) < 0 {
                outward_normal@
            } else {
                vneg(outward_normal@)
            }),
            final(self).p == old(self).p,
            final(self).t == old(self).t,
            final(self).material == old(self).material,
            final(self).u == old(self).u,
            final(self).v == old(self).v,
    {
        self.front_face = ray.direction.dot(outward_normal) < 0;
        if self.front_face {
            self.normal = *outward_normal;
        } else {
            self.normal = outward_normal.neg();
        }
    }
}

} // verus!
