//! The composite box: six outward-facing quads over an axis-aligned volume.

use crate::fixed::{fmul, FX_ONE};
use crate::hittable::HittableList;
use crate::material::{surface_wf, Surface, SurfV};
use crate::shape::{in_range, seq_wf, Element, Quad};
use crate::vector::{vcross, vdivs, vdot, vlen2, vneg, vunit, Point, Vector3, V3};
use vstd::prelude::*;

verus! {

/// The smaller of two scalars.
pub open spec fn smin(a: int, b: int) -> int {
    if a < b {
        a
    } else {
        b
    }
}

/// The larger of two scalars.
pub open spec fn smax(a: int, b: int) -> int {
    if a < b {
        b
    } else {
        a
    }
}

/// One face of the box: a quad with the given origin, edges and surface,
/// carrying exactly the plane data `Quad::new` derives from them.
pub open spec fn quad_face(e: Element, q: V3, u: V3, v: V3, m: SurfV) -> bool {
    e matches Element::Quad(qd) && qd.q@ == q && qd.u@ == u && qd.v@ == v && qd.material@ == m
        && qd.normal@ == vunit(vcross(u, v)) && qd.d as int == vdot(vunit(vcross(u, v)), q)
        && qd.w@ == vdivs(vcross(u, v), vlen2(vcross(u, v)))
}

/// A grid product of nonnegative scalars at least a 256th of a square unit
/// is at least 256 grid steps.
proof fn lemma_fmul_lower(a: int, b: int)
    requires
        0 <= a,
        0 <= b,
        16777216 <= a * b,
    ensures
        256 <= fmul(a, b),
{
    vstd::arithmetic::div_mod::lemma_div_is_ordered(16777216, a * b, FX_ONE as int);
}

/// A vector with one component of at least 256 steps in magnitude has a
/// positive squared length.
proof fn lemma_big_component_len2(v: V3)
    requires
        256 <= v.x || v.x <= -256 || 256 <= v.y || v.y <= -256 || 256 <= v.z || v.z <= -256,
    ensures
        1 <= vlen2(v),
{
    crate::vector::lemma_vlen2_nonneg(v);
    if 256 <= v.x || v.x <= -256 {
        assert(65536 <= v.x * v.x) by (nonlinear_arith)
            requires
                256 <= v.x || v.x <= -256,
        ;
        vstd::arithmetic::div_mod::lemma_div_is_ordered(65536, v.x * v.x, FX_ONE as int);
    } else if 256 <= v.y || v.y <= -256 {
        assert(65536 <= v.y * v.y) by (nonlinear_arith)
            requires
                256 <= v.y || v.y <= -256,
        ;
        vstd::arithmetic::div_mod::lemma_div_is_ordered(65536, v.y * v.y, FX_ONE as int);
    } else {
        assert(65536 <= v.z * v.z) by (nonlinear_arith)
            requires
                256 <= v.z || v.z <= -256,
        ;
        vstd::arithmetic::div_mod::lemma_div_is_ordered(65536, v.z * v.z, FX_ONE as int);
    }
}

/// Builds the six faces of the axis-aligned box spanned by two opposite
/// corners, all sharing one surface.  The corners are normalized into
/// min/max corners first, so the construction does not depend on which
/// corner is which.  Each pair of extents must multiply to at least a 256th
/// of a square unit, so that every face's plane normal is resolvable on the
/// grid; thin boxes are fine as long as no face degenerates.
pub fn a_box(a: &Point, b: &Point, material: Surface) -> (r: HittableList)
    requires
        in_range(a@),
        in_range(b@),
        surface_wf(material@),
        smax(a@.x, b@.x) - smin(a@.x, b@.x) <= 0x4000000,
        smax(a@.y, b@.y) - smin(a@.y, b@.y) <= 0x4000000,
        smax(a@.z, b@.z) - smin(a@.z, b@.z) <= 0x4000000,
        16777216 <= (smax(a@.x, b@.x) - smin(a@.x, b@.x)) * (smax(a@.y, b@.y) - smin(a@.y, b@.y)),
        16777216 <= (smax(a@.y, b@.y) - smin(a@.y, b@.y)) * (smax(a@.z, b@.z) - smin(a@.z, b@.z)),
        16777216 <= (smax(a@.x, b@.x) - smin(a@.x, b@.x)) * (smax(a@.z, b@.z) - smin(a@.z, b@.z)),
    ensures
        r.objects@.len() == 6,
        seq_wf(r.objects@),
        ({
            let lo = V3 { x: smin(a@.x, b@.x), y: smin(a@.y, b@.y), z: smin(a@.z, b@.z) };
            let hi = V3 { x: smax(a@.x, b@.x), y: smax(a@.y, b@.y), z: smax(a@.z, b@.z) };
            let ex = V3 { x: hi.x - lo.x, y: 0, z: 0 };
            let ey = V3 { x: 0, y: hi.y - lo.y, z: 0 };
            let ez = V3 { x: 0, y: 0, z: hi.z - lo.z };
            &&& quad_face(
                r.objects@[0],
                V3 { x: lo.x, y: lo.y, z: hi.z },
                ex,
                ey,
                material@,
            )
            &&& quad_face(
                r.objects@[1],
                V3 { x: hi.x, y: lo.y, z: hi.z },
                vneg(ez),
                ey,
                material@,
            )
            &&& quad_face(
                r.objects@[2],
                V3 { x: hi.x, y: lo.y, z: lo.z },
                vneg(ex),
                ey,
                material@,
            )
            &&& quad_face(
                r.objects@[3],
                V3 { x: lo.x, y: lo.y, z: lo.z },
                ez,
                ey,
                material@,
            )
            &&& quad_face(
                r.objects@[4],
                V3 { x: lo.x, y: hi.y, z: hi.z },
                ex,
                vneg(ez),
                material@,
            )
            &&& quad_face(
                r.objects@[5],
                V3 { x: lo.x, y: lo.y, z: lo.z },
                ex,
                ez,
                material@,
            )
        }),
{
    let mut sides = HittableList::default();

    let minp = Vector3::new(
        if a.x < b.x {
            a.x
        } else {
            b.x
        },
        if a.y < b.y {
            a.y
        } else {
            b.y
        },
        if a.z < b.z {
            a.z
        } else {
            b.z
        },
    );
    let maxp = Vector3::new(
        if a.x < b.x {
            b.x
        } else {
            a.x
        },
        if a.y < b.y {
            b.y
        } else {
            a.y
        },
        if a.z < b.z {
            b.z
        } else {
            a.z
        },
    );

    let dx = Vector3::new(maxp.x - minp.x, 0, 0);
    let dy = Vector3::new(0, maxp.y - minp.y, 0);
    let dz = Vector3::new(0, 0, maxp.z - minp.z);
    let ndx = Vector3::new(minp.x - maxp.x, 0, 0);
    let ndz = Vector3::new(0, 0, minp.z - maxp.z);

    proof {
        assert(dz@.z * dy@.y == dy@.y * dz@.z) by (nonlinear_arith);
        lemma_fmul_lower(dx@.x, dy@.y);
        lemma_fmul_lower(dz@.z, dy@.y);
        lemma_fmul_lower(dx@.x, dz@.z);
        crate::vector::lemma_fmul_neg(dz@.z, dy@.y);
        crate::vector::lemma_fmul_neg(dx@.x, dy@.y);
        crate::vector::lemma_fmul_neg_right(dx@.x, dz@.z);
        lemma_big_component_len2(vcross(dx@, dy@));
        lemma_big_component_len2(vcross(ndz@, dy@));
        lemma_big_component_len2(vcross(ndx@, dy@));
        lemma_big_component_len2(vcross(dz@, dy@));
        lemma_big_component_len2(vcross(dx@, ndz@));
        lemma_big_component_len2(vcross(dx@, dz@));
    }

    // front
    sides.add(
        Element::Quad(
            Quad::new(Vector3::new(minp.x, minp.y, maxp.z), dx, dy, material.clone()),
        ),
    );
    // right
    sides.add(
        Element::Quad(
            Quad::new(Vector3::new(maxp.x, minp.y, maxp.z), ndz, dy, material.clone()),
        ),
    );
    // back
    sides.add(
        Element::Quad(
            Quad::new(Vector3::new(maxp.x, minp.y, minp.z), ndx, dy, material.clone()),
        ),
    );
    // left
    sides.add(
        Element::Quad(
            Quad::new(Vector3::new(minp.x, minp.y, minp.z), dz, dy, material.clone()),
        ),
    );
    // top
    sides.add(
        Element::Quad(
            Quad::new(Vector3::new(minp.x, maxp.y, maxp.z), dx, ndz, material.clone()),
        ),
    );
    // bottom
    sides.add(Element::Quad(Quad::new(Vector3::new(minp.x, minp.y, minp.z), dx, dz, material)));

    sides
}

} // verus!
