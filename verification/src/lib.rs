//! A path-tracing renderer on fixed-point arithmetic, with the intersection,
//! shading, sampling and accumulation pipeline verified against exact
//! grid-level contracts.

use vstd::prelude::*;

pub mod camera;
pub mod fixed;
pub mod interval;
pub mod hittable;
pub mod material;
pub mod noise;
pub mod ray;
pub mod rng;
pub mod shape;
pub mod texture;
pub mod trig;
pub mod vector;

use crate::fixed::{fits_i64, fmul, fsqrt, fx_mul, fx_sqrt, FX_ONE};
use crate::vector::{
    bounded, dot_fits, vadd, vdot, vlen2, vneg, vscale, vsub, Vector3, V3,
};

verus! {

/// Fixed-point dot product, as a free function.
pub fn dot(fst: &Vector3, snd: &Vector3) -> (r: i64)
    requires
        dot_fits(fst@, snd@),
    ensures
        r == vdot(fst@, snd@),
{
    fst.dot(snd)
}

/// A uniform draw from the closed grid range `[min, max]`.
pub fn random_rng(rng: &mut rand::rngs::StdRng, min: i64, max: i64) -> (r: i64)
    requires
        min <= max,
        max - min < 18446744073709551615,
    ensures
        min <= r <= max,
{
    let span: u64 = ((max as i128) - (min as i128) + 1) as u64;
    let draw = crate::rng::rand_below(rng, span);
    ((min as i128) + (draw as i128)) as i64
}

/// A uniform draw from the unit range `[0, FX_ONE]`.
#[inline]
pub fn random(rng: &mut rand::rngs::StdRng) -> (r: i64)
    ensures
        0 <= r <= FX_ONE,
{
    random_rng(rng, 0, FX_ONE)
}

/// A uniform integer draw from the closed range `[min, max]`.
pub fn random_int_rng(rng: &mut rand::rngs::StdRng, min: i32, max: i32) -> (r: i32)
    requires
        min <= max,
    ensures
        min <= r <= max,
{
    let span: u64 = ((max as i64) - (min as i64) + 1) as u64;
    let draw = crate::rng::rand_below(rng, span);
    ((min as i64) + (draw as i64)) as i32
}

/// The mirror reflection of `v` about the normal `n` on the grid.
pub open spec fn sreflect(v: V3, n: V3) -> V3 {
    vsub(v, vscale(n, 2 * vdot(v, n)))
}

/// Reflection: `v - n * 2 * dot(v, n)`, for unit-scale inputs.
#[inline]
pub fn reflect_ray(v: &Vector3, n: &Vector3) -> (r: Vector3)
    requires
        bounded(v@, 4 * FX_ONE),
        bounded(n@, 4 * FX_ONE),
    ensures
        r@ == sreflect(v@, n@),
        bounded(r@, 500 * FX_ONE),
{
    proof {
        crate::vector::lemma_dot_fits(v@, n@, 262144, 262144);
        let d2 = 2 * vdot(v@, n@);
        crate::fixed::lemma_fmul_bound(n@.x, d2, 262144, 6291462);
        crate::fixed::lemma_fmul_bound(n@.y, d2, 262144, 6291462);
        crate::fixed::lemma_fmul_bound(n@.z, d2, 262144, 6291462);
    }
    let d = dot(v, n);
    v.sub(&n.scale(2 * d))
}

/// The refracted direction on the grid, mirroring the perpendicular /
/// parallel decomposition with clamped cosine.
pub open spec fn srefract(uv: V3, n: V3, eta: int) -> V3 {
    let c0 = vdot(vneg(uv), n);
    let cos = if c0 > FX_ONE { FX_ONE as int } else { c0 };
    let perp = vscale(vadd(vscale(n, cos), uv), eta);
    let k = FX_ONE - vlen2(perp);
    let ka = if k < 0 { -k } else { k };
    vadd(perp, vscale(n, -fsqrt(ka)))
}

/// Refraction of the unit direction `uv` at a surface with unit normal `n`
/// and refraction ratio `eta`.
pub fn refract_ray(uv: &Vector3, n: &Vector3, etai_over_etat: i64) -> (r: Vector3)
    requires
        bounded(uv@, 4 * FX_ONE),
        bounded(n@, 4 * FX_ONE),
        0 < etai_over_etat <= 16 * FX_ONE,
    ensures
        r@ == srefract(uv@, n@, etai_over_etat as int),
        bounded(r@, 0x80000000),
{
    proof {
        crate::vector::lemma_dot_fits(vneg(uv@), n@, 262144, 262144);
    }
    let minus_uv = uv.neg();
    let c0 = dot(&minus_uv, n);
    let cos_theta = if c0 > FX_ONE {
        FX_ONE
    } else {
        c0
    };
    proof {
        crate::fixed::lemma_fmul_bound(n@.x, cos_theta as int, 262144, 3145731);
        crate::fixed::lemma_fmul_bound(n@.y, cos_theta as int, 262144, 3145731);
        crate::fixed::lemma_fmul_bound(n@.z, cos_theta as int, 262144, 3145731);
    }
    let scaled_n = n.scale(cos_theta);
    let base = scaled_n.add(uv);
    proof {
        crate::fixed::lemma_fmul_bound(base@.x, etai_over_etat as int, 12845069, 1048576);
        crate::fixed::lemma_fmul_bound(base@.y, etai_over_etat as int, 12845069, 1048576);
        crate::fixed::lemma_fmul_bound(base@.z, etai_over_etat as int, 12845069, 1048576);
    }
    let r_out_perp = base.scale(etai_over_etat);
    proof {
        crate::vector::lemma_dot_fits(r_out_perp@, r_out_perp@, 205521105, 205521105);
        crate::vector::lemma_vlen2_nonneg(r_out_perp@);
    }
    let perp_len2 = r_out_perp.length_squared();
    let k = FX_ONE - perp_len2;
    let ka = if k < 0 {
        -k
    } else {
        k
    };
    let root = fx_sqrt(ka);
    proof {
        crate::fixed::lemma_sqrt_floor_upper((ka * 65536) as nat, 400000000);
        crate::fixed::lemma_fmul_bound(n@.x, -root as int, 262144, 400000000);
        crate::fixed::lemma_fmul_bound(n@.y, -root as int, 262144, 400000000);
        crate::fixed::lemma_fmul_bound(n@.z, -root as int, 262144, 400000000);
    }
    let r_out_parallel = n.scale(-root);
    r_out_perp.add(&r_out_parallel)
}

/// Linear interpolation on the grid: `a + t * (b - a)`.
pub fn lerp(t: i64, a: i64, b: i64) -> (r: i64)
    requires
        fits_i64(b - a),
        fits_i64(fmul(t as int, b - a)),
        fits_i64(a + fmul(t as int, b - a)),
    ensures
        r == a + fmul(t as int, b - a),
{
    a + fx_mul(t, b - a)
}

/// The lattice gradient of the improved-noise scheme: picks two of the three
/// offsets by the hash's low bits and combines them with signs.
pub open spec fn sgrad(hash: i64, x: int, y: int, z: int) -> int {
    let h = hash & 15;
    let u = if h < 8 { x } else { y };
    let v = if h < 4 { y } else if h == 12 || h == 14 { x } else { z };
    let uu = if h & 1 == 0 { u } else { -u };
    let vv = if h & 2 == 0 { v } else { -v };
    uu + vv
}

/// Gradient selection for the noise lattice, exactly `sgrad`.
pub fn grad(hash: i64, x: i64, y: i64, z: i64) -> (r: i64)
    requires
        -0x1000000000000 <= x <= 0x1000000000000,
        -0x1000000000000 <= y <= 0x1000000000000,
        -0x1000000000000 <= z <= 0x1000000000000,
    ensures
        r == sgrad(hash, x as int, y as int, z as int),
        -0x2000000000000 <= r <= 0x2000000000000,
{
    let h = hash & 15;
    proof {
        assert(0 <= hash & 15 < 16) by (bit_vector);
    }
    let u = if h < 8 {
        x
    } else {
        y
    };
    let v = if h < 4 {
        y
    } else if h == 12 || h == 14 {
        x
    } else {
        z
    };
    let uu = if h & 1 == 0 {
        u
    } else {
        -u
    };
    let vv = if h & 2 == 0 {
        v
    } else {
        -v
    };
    uu + vv
}

} // verus!
