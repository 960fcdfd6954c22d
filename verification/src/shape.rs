//! Scene geometry: primitives, the composite box, spatial transforms, and
//! the tagged union that ties them together.
//!
//! Each shape's hit test is specified by a spec mirror; the aggregate
//! machinery below proves that scanning a list while shrinking the search
//! interval reports the globally nearest hit.

pub mod a_box;
pub mod quad;
pub mod sphere;

use crate::fixed::{fmul, FX_ONE};
use crate::hittable::{HitRecord, HittableList, SpecHit};
use crate::ray::Ray;
use crate::trig::{scos, ssin, sto_radians};
use crate::vector::{bounded, vadd, vsub, Vector3, V3};
use vstd::prelude::*;

pub use self::quad::Quad;
pub use self::sphere::Sphere;

verus! {

/// Scene coordinates stay within a fixed world box.
pub open spec fn in_range(v: V3) -> bool {
    bounded(v, 0x4000000)
}

pub enum Element {
    Sphere(Sphere),
    Quad(Quad),
    Box(HittableList),
    Translate { offset: Vector3, object: Box<Element> },
    RotateY { sin_theta: i64, cos_theta: i64, object: Box<Element> },
}

/// Well-formedness of an element tree.
pub open spec fn elem_wf(e: Element) -> bool
    decreases e,
{
    match e {
        Element::Sphere(s) => s.wf(),
        Element::Quad(q) => q.wf(),
        Element::Box(list) => seq_wf(list.objects@),
        Element::Translate { offset, object } => in_range(offset@) && elem_wf(*object),
        Element::RotateY { sin_theta, cos_theta, object } => -FX_ONE <= sin_theta <= FX_ONE
            && -FX_ONE <= cos_theta <= FX_ONE && elem_wf(*object),
    }
}

/// Well-formedness of every element of a list.
pub open spec fn seq_wf(s: Seq<Element>) -> bool
    decreases s,
{
    forall|i: int| 0 <= i < s.len() ==> elem_wf(#[trigger] s[i])
}

/// A point rotated about the vertical axis into the local frame.
pub open spec fn rot_in(sin_theta: int, cos_theta: int, v: V3) -> V3 {
    V3 {
        x: fmul(cos_theta, v.x) - fmul(sin_theta, v.z),
        y: v.y,
        z: fmul(sin_theta, v.x) + fmul(cos_theta, v.z),
    }
}

/// A point rotated back out of the local frame.
pub open spec fn rot_out(sin_theta: int, cos_theta: int, v: V3) -> V3 {
    V3 {
        x: fmul(cos_theta, v.x) + fmul(sin_theta, v.z),
        y: v.y,
        z: -fmul(sin_theta, v.x) + fmul(cos_theta, v.z),
    }
}

/// The hit an element reports for a ray within a parameter interval.
pub open spec fn elem_hit(e: Element, orig: V3, dir: V3, time: int, tmin: int, tmax: int) -> Option<
    SpecHit,
>
    decreases e, 1int,
{
    match e {
        Element::Sphere(s) => s.hit_spec(orig, dir, time, tmin, tmax),
        Element::Quad(q) => q.hit_spec(orig, dir, tmin, tmax),
        Element::Box(list) => seq_hit(list.objects@, orig, dir, time, tmin, tmax),
        Element::Translate { offset, object } => {
            let morig = vsub(orig, offset@);
            if !bounded(morig, 0x10000000) {
                None
            } else {
                match elem_hit(*object, morig, dir, time, tmin, tmax) {
                    None => None,
                    Some(h) => {
                        let p2 = vadd(h.p, offset@);
                        if !bounded(p2, 0x40000000000) {
                            None
                        } else {
                            Some(
                                SpecHit {
                                    p: p2,
                                    normal: h.normal,
                                    t: h.t,
                                    front_face: h.front_face,
                                    u: h.u,
                                    v: h.v,
                                    material: h.material,
                                },
                            )
                        }
                    },
                }
            }
        },
        Element::RotateY { sin_theta, cos_theta, object } => {
            let morig = rot_in(sin_theta as int, cos_theta as int, orig);
            let mdir = rot_in(sin_theta as int, cos_theta as int, dir);
            if !bounded(morig, 0x10000000) || !bounded(mdir, 0x1000000) {
                None
            } else {
                match elem_hit(*object, morig, mdir, time, tmin, tmax) {
                    None => None,
                    Some(h) => {
                        let wp = rot_out(sin_theta as int, cos_theta as int, h.p);
                        let wn = rot_out(sin_theta as int, cos_theta as int, h.normal);
                        if !bounded(wp, 0x40000000000) || !bounded(wn, 0x40000000) {
                            None
                        } else {
                            Some(
                                SpecHit {
                                    p: wp,
                                    normal: wn,
                                    t: h.t,
                                    front_face: h.front_face,
                                    u: h.u,
                                    v: h.v,
                                    material: h.material,
                                },
                            )
                        }
                    },
                }
            }
        },
    }
}

/// The hit an ordered list reports: each element is tried in turn against
/// an interval shrunk to the nearest hit so far.
pub open spec fn seq_hit(
    s: Seq<Element>,
    orig: V3,
    dir: V3,
    time: int,
    tmin: int,
    tmax: int,
) -> Option<SpecHit>
    decreases s, 0int,
{
    if s.len() == 0 {
        None
    } else {
        match elem_hit(s[0], orig, dir, time, tmin, tmax) {
            None => seq_hit(s.drop_first(), orig, dir, time, tmin, tmax),
            Some(h1) => match seq_hit(s.drop_first(), orig, dir, time, tmin, h1.t) {
                None => Some(h1),
                Some(h2) => Some(h2),
            },
        }
    }
}

/// Any reported hit lies within the interval asked for, on a point and
/// normal that stay on the grid.
pub proof fn lemma_elem_hit_range(e: Element, orig: V3, dir: V3, time: int, tmin: int, tmax: int)
    ensures
        match elem_hit(e, orig, dir, time, tmin, tmax) {
            Some(h) => tmin <= h.t <= tmax,
            None => true,
        },
    decreases e, 1int,
{
    match e {
        Element::Sphere(s) => {},
        Element::Quad(q) => {},
        Element::Box(list) => {
            lemma_seq_hit_range(list.objects@, orig, dir, time, tmin, tmax);
        },
        Element::Translate { offset, object } => {
            let morig = vsub(orig, offset@);
            if bounded(morig, 0x10000000) {
                lemma_elem_hit_range(*object, morig, dir, time, tmin, tmax);
            }
        },
        Element::RotateY { sin_theta, cos_theta, object } => {
            let morig = rot_in(sin_theta as int, cos_theta as int, orig);
            let mdir = rot_in(sin_theta as int, cos_theta as int, dir);
            if bounded(morig, 0x10000000) && bounded(mdir, 0x1000000) {
                lemma_elem_hit_range(*object, morig, mdir, time, tmin, tmax);
            }
        },
    }
}

/// Any reported hit lies within the interval asked for.
pub proof fn lemma_seq_hit_range(
    s: Seq<Element>,
    orig: V3,
    dir: V3,
    time: int,
    tmin: int,
    tmax: int,
)
    ensures
        match seq_hit(s, orig, dir, time, tmin, tmax) {
            Some(h) => tmin <= h.t <= tmax,
            None => true,
        },
    decreases s, 0int,
{
    if s.len() == 0 {
    } else {
        lemma_elem_hit_range(s[0], orig, dir, time, tmin, tmax);
        match elem_hit(s[0], orig, dir, time, tmin, tmax) {
            None => {
                lemma_seq_hit_range(s.drop_first(), orig, dir, time, tmin, tmax);
            },
            Some(h1) => {
                lemma_seq_hit_range(s.drop_first(), orig, dir, time, tmin, h1.t);
            },
        }
    }
}

/// Shrinking the far end of the interval keeps a hit that is near enough,
/// and drops everything else; the reported record does not change.
pub proof fn lemma_elem_hit_shrink(
    e: Element,
    orig: V3,
    dir: V3,
    time: int,
    tmin: int,
    tmax: int,
    t2: int,
)
    requires
        t2 <= tmax,
    ensures
        match elem_hit(e, orig, dir, time, tmin, tmax) {
            Some(h) => if h.t <= t2 {
                elem_hit(e, orig, dir, time, tmin, t2) == Some(h)
            } else {
                elem_hit(e, orig, dir, time, tmin, t2) is None
            },
            None => elem_hit(e, orig, dir, time, tmin, t2) is None,
        },
    decreases e, 1int,
{
    match e {
        Element::Sphere(s) => {
            match s.roots(orig, dir, time) {
                None => {},
                Some((r1, r2)) => {
                    lemma_sphere_roots_ordered(s, orig, dir, time);
                },
            }
        },
        Element::Quad(q) => {},
        Element::Box(list) => {
            lemma_seq_hit_shrink(list.objects@, orig, dir, time, tmin, tmax, t2);
        },
        Element::Translate { offset, object } => {
            let morig = vsub(orig, offset@);
            if bounded(morig, 0x10000000) {
                lemma_elem_hit_shrink(*object, morig, dir, time, tmin, tmax, t2);
            }
        },
        Element::RotateY { sin_theta, cos_theta, object } => {
            let morig = rot_in(sin_theta as int, cos_theta as int, orig);
            let mdir = rot_in(sin_theta as int, cos_theta as int, dir);
            if bounded(morig, 0x10000000) && bounded(mdir, 0x1000000) {
                lemma_elem_hit_shrink(*object, morig, mdir, time, tmin, tmax, t2);
            }
        },
    }
}

/// The near quadratic root never exceeds the far one.
proof fn lemma_sphere_roots_ordered(s: Sphere, orig: V3, dir: V3, time: int)
    ensures
        match s.roots(orig, dir, time) {
            Some(pair) => pair.0 <= pair.1,
            None => true,
        },
{
    match s.roots(orig, dir, time) {
        None => {},
        Some(pair) => {
            let center = s.center_at(time);
            let oc = vsub(orig, center);
            let a = crate::vector::vlen2(dir);
            let half_b = crate::vector::vdot(oc, dir);
            let c = crate::vector::vlen2(oc) - s.radius_squared;
            let disc = fmul(half_b, half_b) - fmul(a, c);
            let sq = crate::fixed::fsqrt(disc);
            crate::fixed::lemma_sqrt_floor((disc * FX_ONE) as nat);
            crate::fixed::lemma_fdiv_mono_num(-half_b - sq, -half_b + sq, a);
        },
    }
}

/// Shrinking the far end of the interval keeps a hit that is near enough,
/// and drops everything else, over a whole list.
pub proof fn lemma_seq_hit_shrink(
    s: Seq<Element>,
    orig: V3,
    dir: V3,
    time: int,
    tmin: int,
    tmax: int,
    t2: int,
)
    requires
        t2 <= tmax,
    ensures
        match seq_hit(s, orig, dir, time, tmin, tmax) {
            Some(h) => if h.t <= t2 {
                seq_hit(s, orig, dir, time, tmin, t2) == Some(h)
            } else {
                seq_hit(s, orig, dir, time, tmin, t2) is None
            },
            None => seq_hit(s, orig, dir, time, tmin, t2) is None,
        },
    decreases s, 2int,
{
    if s.len() == 0 {
    } else {
        let rest = s.drop_first();
        lemma_elem_hit_shrink(s[0], orig, dir, time, tmin, tmax, t2);
        lemma_elem_hit_range(s[0], orig, dir, time, tmin, tmax);
        match elem_hit(s[0], orig, dir, time, tmin, tmax) {
            None => {
                lemma_seq_hit_shrink(rest, orig, dir, time, tmin, tmax, t2);
            },
            Some(h1) => {
                lemma_seq_hit_range(rest, orig, dir, time, tmin, h1.t);
                if h1.t <= t2 {
                    // the shrunk head hit is the same record, and the tail
                    // search below it is unchanged
                    assert(elem_hit(s[0], orig, dir, time, tmin, t2) == Some(h1));
                } else {
                    lemma_seq_hit_shrink(rest, orig, dir, time, tmin, h1.t, t2);
                }
            },
        }
    }
}

/// A hit reported by a well-formed element carries a well-formed surface.
pub proof fn lemma_elem_hit_material_wf(
    e: Element,
    orig: V3,
    dir: V3,
    time: int,
    tmin: int,
    tmax: int,
)
    requires
        elem_wf(e),
    ensures
        match elem_hit(e, orig, dir, time, tmin, tmax) {
            Some(h) => crate::material::surface_wf(h.material),
            None => true,
        },
    decreases e, 1int,
{
    match e {
        Element::Sphere(s) => {},
        Element::Quad(q) => {},
        Element::Box(list) => {
            lemma_seq_hit_material_wf(list.objects@, orig, dir, time, tmin, tmax);
        },
        Element::Translate { offset, object } => {
            let morig = vsub(orig, offset@);
            if bounded(morig, 0x10000000) {
                lemma_elem_hit_material_wf(*object, morig, dir, time, tmin, tmax);
            }
        },
        Element::RotateY { sin_theta, cos_theta, object } => {
            let morig = rot_in(sin_theta as int, cos_theta as int, orig);
            let mdir = rot_in(sin_theta as int, cos_theta as int, dir);
            if bounded(morig, 0x10000000) && bounded(mdir, 0x1000000) {
                lemma_elem_hit_material_wf(*object, morig, mdir, time, tmin, tmax);
            }
        },
    }
}

/// A hit reported by a well-formed list carries a well-formed surface.
pub proof fn lemma_seq_hit_material_wf(
    s: Seq<Element>,
    orig: V3,
    dir: V3,
    time: int,
    tmin: int,
    tmax: int,
)
    requires
        seq_wf(s),
    ensures
        match seq_hit(s, orig, dir, time, tmin, tmax) {
            Some(h) => crate::material::surface_wf(h.material),
            None => true,
        },
    decreases s, 0int,
{
    if s.len() == 0 {
    } else {
        lemma_elem_hit_material_wf(s[0], orig, dir, time, tmin, tmax);
        assert(seq_wf(s.drop_first()));
        match elem_hit(s[0], orig, dir, time, tmin, tmax) {
            None => {
                lemma_seq_hit_material_wf(s.drop_first(), orig, dir, time, tmin, tmax);
            },
            Some(h1) => {
                lemma_seq_hit_material_wf(s.drop_first(), orig, dir, time, tmin, h1.t);
            },
        }
    }
}

/// The aggregate's hit is never farther than any single element's hit: if
/// some element reports a hit, the list reports one at most as far.
pub proof fn lemma_aggregate_nearest(
    s: Seq<Element>,
    orig: V3,
    dir: V3,
    time: int,
    tmin: int,
    tmax: int,
    i: int,
)
    requires
        0 <= i < s.len(),
        elem_hit(s[i], orig, dir, time, tmin, tmax) is Some,
    ensures
        seq_hit(s, orig, dir, time, tmin, tmax) is Some,
        match (seq_hit(s, orig, dir, time, tmin, tmax), elem_hit(
            s[i],
            orig,
            dir,
            time,
            tmin,
            tmax,
        )) {
            (Some(h), Some(hi)) => h.t <= hi.t,
            _ => true,
        },
    decreases s.len(),
{
    let rest = s.drop_first();
    let hi = choose|hi: SpecHit| elem_hit(s[i], orig, dir, time, tmin, tmax) == Some(hi);
    lemma_elem_hit_range(s[i], orig, dir, time, tmin, tmax);
    match elem_hit(s[0], orig, dir, time, tmin, tmax) {
        None => {
            assert(i != 0);
            assert(rest[i - 1] == s[i]);
            lemma_aggregate_nearest(rest, orig, dir, time, tmin, tmax, i - 1);
        },
        Some(h1) => {
            lemma_seq_hit_range(rest, orig, dir, time, tmin, h1.t);
            lemma_elem_hit_range(s[0], orig, dir, time, tmin, tmax);
            if i == 0 {
                // the head's own hit bounds the search that follows it
            } else {
                assert(rest[i - 1] == s[i]);
                lemma_elem_hit_shrink(s[i], orig, dir, time, tmin, tmax, h1.t);
                if hi.t <= h1.t {
                    lemma_aggregate_nearest(rest, orig, dir, time, tmin, h1.t, i - 1);
                } else {
                    // every candidate below h1.t is already near enough
                }
            }
        },
    }
}

impl Element {
    /// Wraps an element in a rotation about the vertical axis by an angle in
    /// degrees.
    pub fn new_rotate_y(angle: i64, object: Element) -> (r: Self)
        requires
            -0x40000000 <= angle <= 0x40000000,
            elem_wf(object),
        ensures
            elem_wf(r),
            r matches Element::RotateY { sin_theta, cos_theta, object: o } && sin_theta as int
                == ssin(sto_radians(angle as int)) && cos_theta as int == scos(
                sto_radians(angle as int),
            ) && *o == object,
    {
        let radians = crate::trig::to_radians(angle);
        let sin_theta = crate::trig::sin_fx(radians);
        let cos_theta = crate::trig::cos_fx(radians);
        Element::RotateY { sin_theta, cos_theta, object: Box::new(object) }
    }

    /// Ray/element intersection: exactly `elem_hit` on the model.
    pub fn hit(&self, ray: &Ray, ray_t: &crate::interval::Interval) -> (r: Option<HitRecord>)
        requires
            elem_wf(*self),
            bounded(ray.origin@, 0x10000000),
            bounded(ray.direction@, 0x1000000),
            0 <= ray.time <= FX_ONE,
            -0x40000000 <= ray_t.min,
            ray_t.max <= 0x40000000,
        ensures
            match elem_hit(
                *self,
                ray.origin@,
                ray.direction@,
                ray.time as int,
                ray_t.min as int,
                ray_t.max as int,
            ) {
                None => r is None,
                Some(h) => match r {
                    Some(hr) => hr@ == h,
                    None => false,
                },
            },
            match r {
                Some(hr) => bounded(hr.p@, 0x40000000000) && bounded(hr.normal@, 0x40000000),
                None => true,
            },
        decreases *self,
    {
        match self {
            Element::Sphere(s) => s.hit(ray, ray_t),
            Element::Quad(q) => q.hit(ray, ray_t),
            Element::Box(b) => b.hit(ray, ray_t),
            Element::Translate { offset, object } => {
                let moved = ray.origin.sub(offset);
                if !(-0x10000000 <= moved.x && moved.x <= 0x10000000 && -0x10000000 <= moved.y
                    && moved.y <= 0x10000000 && -0x10000000 <= moved.z && moved.z <= 0x10000000) {
                    return None;
                }
                let offset_ray = Ray::new(moved, ray.direction, ray.time);
                match object.hit(&offset_ray, ray_t) {
                    None => None,
                    Some(hit_record) => {
                        let p2 = hit_record.p.add(offset);
                        if !(-0x40000000000 <= p2.x && p2.x <= 0x40000000000 && -0x40000000000
                            <= p2.y && p2.y <= 0x40000000000 && -0x40000000000 <= p2.z && p2.z
                            <= 0x40000000000) {
                            return None;
                        }
                        Some(
                            HitRecord::new(
                                p2,
                                hit_record.normal,
                                hit_record.t,
                                hit_record.material,
                                hit_record.front_face,
                                hit_record.u,
                                hit_record.v,
                            ),
                        )
                    },
                }
            },
            Element::RotateY { sin_theta, cos_theta, object } => {
                let morig = rotate_in_fx(*sin_theta, *cos_theta, &ray.origin);
                let mdir = rotate_in_fx(*sin_theta, *cos_theta, &ray.direction);
                if !(-0x10000000 <= morig.x && morig.x <= 0x10000000 && -0x10000000 <= morig.y
                    && morig.y <= 0x10000000 && -0x10000000 <= morig.z && morig.z <= 0x10000000) {
                    return None;
                }
                if !(-0x1000000 <= mdir.x && mdir.x <= 0x1000000 && -0x1000000 <= mdir.y && mdir.y
                    <= 0x1000000 && -0x1000000 <= mdir.z && mdir.z <= 0x1000000) {
                    return None;
                }
                let rotated = Ray::new(morig, mdir, ray.time);
                match object.hit(&rotated, ray_t) {
                    None => None,
                    Some(hit_record) => {
                        let wp = rotate_out_fx(*sin_theta, *cos_theta, &hit_record.p);
                        let wn = rotate_out_fx(*sin_theta, *cos_theta, &hit_record.normal);
                        if !(-0x40000000000 <= wp.x && wp.x <= 0x40000000000 && -0x40000000000
                            <= wp.y && wp.y <= 0x40000000000 && -0x40000000000 <= wp.z && wp.z
                            <= 0x40000000000) {
                            return None;
                        }
                        if !(-0x40000000 <= wn.x && wn.x <= 0x40000000 && -0x40000000 <= wn.y
                            && wn.y <= 0x40000000 && -0x40000000 <= wn.z && wn.z <= 0x40000000) {
                            return None;
                        }
                        Some(
                            HitRecord::new(
                                wp,
                                wn,
                                hit_record.t,
                                hit_record.material,
                                hit_record.front_face,
                                hit_record.u,
                                hit_record.v,
                            ),
                        )
                    },
                }
            },
        }
    }
}

/// Rotation into the local frame, exactly `rot_in`.
fn rotate_in_fx(sin_theta: i64, cos_theta: i64, v: &Vector3) -> (r: Vector3)
    requires
        -FX_ONE <= sin_theta <= FX_ONE,
        -FX_ONE <= cos_theta <= FX_ONE,
        bounded(v@, 0x40000000000),
    ensures
        r@ == rot_in(sin_theta as int, cos_theta as int, v@),
        bounded(r@, 0x80000000002),
{
    proof {
        crate::fixed::lemma_fmul_bound(cos_theta as int, v@.x, 65536, 0x40000000000);
        crate::fixed::lemma_fmul_bound(sin_theta as int, v@.z, 65536, 0x40000000000);
        crate::fixed::lemma_fmul_bound(sin_theta as int, v@.x, 65536, 0x40000000000);
        crate::fixed::lemma_fmul_bound(cos_theta as int, v@.z, 65536, 0x40000000000);
    }
    Vector3::new(
        crate::fixed::fx_mul(cos_theta, v.x) - crate::fixed::fx_mul(sin_theta, v.z),
        v.y,
        crate::fixed::fx_mul(sin_theta, v.x) + crate::fixed::fx_mul(cos_theta, v.z),
    )
}

/// Rotation out of the local frame, exactly `rot_out`.
fn rotate_out_fx(sin_theta: i64, cos_theta: i64, v: &Vector3) -> (r: Vector3)
    requires
        -FX_ONE <= sin_theta <= FX_ONE,
        -FX_ONE <= cos_theta <= FX_ONE,
        bounded(v@, 0x40000000000),
    ensures
        r@ == rot_out(sin_theta as int, cos_theta as int, v@),
        bounded(r@, 0x80000000002),
{
    proof {
        crate::fixed::lemma_fmul_bound(cos_theta as int, v@.x, 65536, 0x40000000000);
        crate::fixed::lemma_fmul_bound(sin_theta as int, v@.z, 65536, 0x40000000000);
        crate::fixed::lemma_fmul_bound(sin_theta as int, v@.x, 65536, 0x40000000000);
        crate::fixed::lemma_fmul_bound(cos_theta as int, v@.z, 65536, 0x40000000000);
    }
    Vector3::new(
        crate::fixed::fx_mul(cos_theta, v.x) + crate::fixed::fx_mul(sin_theta, v.z),
        v.y,
        -crate::fixed::fx_mul(sin_theta, v.x) + crate::fixed::fx_mul(cos_theta, v.z),
    )
}

} // verus!
