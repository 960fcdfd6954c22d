//! 3-component fixed-point vectors, used uniformly for points, directions
//! and colors.
//!
//! Every operation is mirrored by a spec function over `V3`, the mathematical
//! model with unbounded integer coordinates, so the contracts state exactly
//! which grid value an operation returns.

use crate::fixed::{
    fdiv, fits_i64, fmul, fsqrt, fx_div, fx_mul, fx_sqrt, lemma_fdiv_bound_denominator,
    lemma_sqrt_floor, lemma_sqrt_floor_lower, FX_ONE,
};
use vstd::prelude::*;

verus! {

/// Mathematical model of a vector: unbounded integer grid coordinates.
pub ghost struct V3 {
    pub x: int,
    pub y: int,
    pub z: int,
}

pub open spec fn vadd(a: V3, b: V3) -> V3 {
    V3 { x: a.x + b.x, y: a.y + b.y, z: a.z + b.z }
}

pub open spec fn vsub(a: V3, b: V3) -> V3 {
    V3 { x: a.x - b.x, y: a.y - b.y, z: a.z - b.z }
}

pub open spec fn vneg(a: V3) -> V3 {
    V3 { x: -a.x, y: -a.y, z: -a.z }
}

/// Componentwise product on the grid.
pub open spec fn vmul(a: V3, b: V3) -> V3 {
    V3 { x: fmul(a.x, b.x), y: fmul(a.y, b.y), z: fmul(a.z, b.z) }
}

/// Scaling by a grid scalar.
pub open spec fn vscale(a: V3, s: int) -> V3 {
    V3 { x: fmul(a.x, s), y: fmul(a.y, s), z: fmul(a.z, s) }
}

/// Division by a grid scalar.
pub open spec fn vdivs(a: V3, s: int) -> V3 {
    V3 { x: fdiv(a.x, s), y: fdiv(a.y, s), z: fdiv(a.z, s) }
}

pub open spec fn vdot(a: V3, b: V3) -> int {
    fmul(a.x, b.x) + fmul(a.y, b.y) + fmul(a.z, b.z)
}

pub open spec fn vcross(a: V3, b: V3) -> V3 {
    V3 {
        x: fmul(a.y, b.z) - fmul(a.z, b.y),
        y: fmul(a.z, b.x) - fmul(a.x, b.z),
        z: fmul(a.x, b.y) - fmul(a.y, b.x),
    }
}

pub open spec fn vlen2(a: V3) -> int {
    vdot(a, a)
}

pub open spec fn vlen(a: V3) -> int {
    fsqrt(vlen2(a))
}

pub open spec fn vunit(a: V3) -> V3 {
    vdivs(a, vlen(a))
}

/// The reciprocal-based normalization, which floors differently from `vunit`.
pub open spec fn vnormalize(a: V3) -> V3 {
    vscale(a, fdiv(FX_ONE as int, vlen(a)))
}

/// The exact (unfloored) dot product of two integer vectors.
pub open spec fn vdot_exact(a: V3, b: V3) -> int {
    a.x * b.x + a.y * b.y + a.z * b.z
}

/// The exact (unfloored) scaling of an integer vector.
pub open spec fn vscale_exact(a: V3, s: int) -> V3 {
    V3 { x: a.x * s, y: a.y * s, z: a.z * s }
}

/// All coordinates within the symmetric bound `b`.
pub open spec fn bounded(a: V3, b: int) -> bool {
    &&& -b <= a.x <= b
    &&& -b <= a.y <= b
    &&& -b <= a.z <= b
}

/// The three products of a dot product and their partial sums all fit.
pub open spec fn dot_fits(a: V3, b: V3) -> bool {
    &&& fits_i64(fmul(a.x, b.x))
    &&& fits_i64(fmul(a.y, b.y))
    &&& fits_i64(fmul(a.z, b.z))
    &&& fits_i64(fmul(a.x, b.x) + fmul(a.y, b.y))
    &&& fits_i64(vdot(a, b))
}

/// The six products of a cross product and their differences all fit.
pub open spec fn cross_fits(a: V3, b: V3) -> bool {
    &&& fits_i64(fmul(a.y, b.z))
    &&& fits_i64(fmul(a.z, b.y))
    &&& fits_i64(fmul(a.z, b.x))
    &&& fits_i64(fmul(a.x, b.z))
    &&& fits_i64(fmul(a.x, b.y))
    &&& fits_i64(fmul(a.y, b.x))
    &&& fits_i64(vcross(a, b).x)
    &&& fits_i64(vcross(a, b).y)
    &&& fits_i64(vcross(a, b).z)
}

/// Componentwise bounds make every piece of a dot product fit.
pub proof fn lemma_dot_fits(a: V3, b: V3, ba: int, bb: int)
    requires
        bounded(a, ba),
        bounded(b, bb),
        0 <= ba,
        0 <= bb,
        ba * bb <= 0x10000000000000000000,
    ensures
        dot_fits(a, b),
        -3 * ((ba * bb) / (FX_ONE as int) + 1) <= vdot(a, b) <= 3 * ((ba * bb) / (FX_ONE as int)
            + 1),
{
    crate::fixed::lemma_fmul_bound(a.x, b.x, ba, bb);
    crate::fixed::lemma_fmul_bound(a.y, b.y, ba, bb);
    crate::fixed::lemma_fmul_bound(a.z, b.z, ba, bb);
    vstd::arithmetic::div_mod::lemma_div_is_ordered(
        (ba * bb),
        0x10000000000000000000,
        FX_ONE as int,
    );
}

/// Componentwise bounds make every piece of a cross product fit.
pub proof fn lemma_cross_fits(a: V3, b: V3, ba: int, bb: int)
    requires
        bounded(a, ba),
        bounded(b, bb),
        0 <= ba,
        0 <= bb,
        ba * bb <= 0x10000000000000000000,
    ensures
        cross_fits(a, b),
        bounded(vcross(a, b), 2 * ((ba * bb) / (FX_ONE as int) + 1)),
{
    crate::fixed::lemma_fmul_bound(a.y, b.z, ba, bb);
    crate::fixed::lemma_fmul_bound(a.z, b.y, ba, bb);
    crate::fixed::lemma_fmul_bound(a.z, b.x, ba, bb);
    crate::fixed::lemma_fmul_bound(a.x, b.z, ba, bb);
    crate::fixed::lemma_fmul_bound(a.x, b.y, ba, bb);
    crate::fixed::lemma_fmul_bound(a.y, b.x, ba, bb);
    vstd::arithmetic::div_mod::lemma_div_is_ordered(
        (ba * bb),
        0x10000000000000000000,
        FX_ONE as int,
    );
}

/// Negating one factor can lower the floored product by at most one step.
pub proof fn lemma_fmul_neg(a: int, b: int)
    ensures
        -fmul(a, b) - 1 <= fmul(-a, b) <= -fmul(a, b),
{
    let p = a * b;
    assert((-a) * b == -(a * b)) by (nonlinear_arith);
    if p >= 0 {
        crate::fixed::lemma_div_neg_num(p, FX_ONE as int);
    } else {
        crate::fixed::lemma_div_neg_num(-p, FX_ONE as int);
    }
}

/// Negating the other factor can lower the floored product by at most one.
pub proof fn lemma_fmul_neg_right(a: int, b: int)
    ensures
        -fmul(a, b) - 1 <= fmul(a, -b) <= -fmul(a, b),
{
    let p = a * b;
    assert(a * (-b) == -(a * b)) by (nonlinear_arith);
    if p >= 0 {
        crate::fixed::lemma_div_neg_num(p, FX_ONE as int);
    } else {
        crate::fixed::lemma_div_neg_num(-p, FX_ONE as int);
    }
}

/// A squared length is a sum of floored squares, hence nonnegative.
pub proof fn lemma_vlen2_nonneg(a: V3)
    ensures
        0 <= vlen2(a),
        0 <= fmul(a.x, a.x),
        0 <= fmul(a.y, a.y),
        0 <= fmul(a.z, a.z),
{
    lemma_sq_nonneg(a.x);
    lemma_sq_nonneg(a.y);
    lemma_sq_nonneg(a.z);
}

proof fn lemma_sq_nonneg(x: int)
    ensures
        0 <= fmul(x, x),
{
    assert(0 <= x * x) by (nonlinear_arith);
    vstd::arithmetic::div_mod::lemma_div_is_ordered(0, x * x, FX_ONE as int);
}

#[derive(Clone, Copy, PartialEq, Eq, Structural, Debug)]
pub struct Vector3 {
    pub x: i64,
    pub y: i64,
    pub z: i64,
}

impl View for Vector3 {
    type V = V3;

    open spec fn view(&self) -> V3 {
        V3 { x: self.x as int, y: self.y as int, z: self.z as int }
    }
}

pub type Point = Vector3;

pub type Color = Vector3;

impl Vector3 {
    pub fn new(x: i64, y: i64, z: i64) -> (r: Self)
        ensures
            r@ == (V3 { x: x as int, y: y as int, z: z as int }),
    {
        Self { x, y, z }
    }

    pub fn zero() -> (r: Vector3)
        ensures
            r@ == (V3 { x: 0int, y: 0int, z: 0int }),
    {
        Vector3::from_one(0)
    }

    pub fn from_one(v: i64) -> (r: Vector3)
        ensures
            r@ == (V3 { x: v as int, y: v as int, z: v as int }),
    {
        Vector3 { x: v, y: v, z: v }
    }

    pub fn add(&self, other: &Vector3) -> (r: Vector3)
        requires
            fits_i64(self@.x + other@.x),
            fits_i64(self@.y + other@.y),
            fits_i64(self@.z + other@.z),
        ensures
            r@ == vadd(self@, other@),
    {
        Vector3 { x: self.x + other.x, y: self.y + other.y, z: self.z + other.z }
    }

    pub fn sub(&self, other: &Vector3) -> (r: Vector3)
        requires
            fits_i64(self@.x - other@.x),
            fits_i64(self@.y - other@.y),
            fits_i64(self@.z - other@.z),
        ensures
            r@ == vsub(self@, other@),
    {
        Vector3 { x: self.x - other.x, y: self.y - other.y, z: self.z - other.z }
    }

    pub fn neg(&self) -> (r: Vector3)
        requires
            self@.x != i64::MIN,
            self@.y != i64::MIN,
            self@.z != i64::MIN,
        ensures
            r@ == vneg(self@),
    {
        Vector3 { x: -self.x, y: -self.y, z: -self.z }
    }

    /// Componentwise product (used for color attenuation).
    pub fn mul(&self, other: &Vector3) -> (r: Vector3)
        requires
            fits_i64(fmul(self@.x, other@.x)),
            fits_i64(fmul(self@.y, other@.y)),
            fits_i64(fmul(self@.z, other@.z)),
        ensures
            r@ == vmul(self@, other@),
    {
        Vector3 {
            x: fx_mul(self.x, other.x),
            y: fx_mul(self.y, other.y),
            z: fx_mul(self.z, other.z),
        }
    }

    /// Scaling by a grid scalar.
    pub fn scale(&self, s: i64) -> (r: Vector3)
        requires
            fits_i64(fmul(self@.x, s as int)),
            fits_i64(fmul(self@.y, s as int)),
            fits_i64(fmul(self@.z, s as int)),
        ensures
            r@ == vscale(self@, s as int),
    {
        Vector3 { x: fx_mul(self.x, s), y: fx_mul(self.y, s), z: fx_mul(self.z, s) }
    }

    /// Division by a grid scalar.
    pub fn div(&self, s: i64) -> (r: Vector3)
        requires
            s != 0,
            fits_i64(fdiv(self@.x, s as int)),
            fits_i64(fdiv(self@.y, s as int)),
            fits_i64(fdiv(self@.z, s as int)),
        ensures
            r@ == vdivs(self@, s as int),
    {
        Vector3 { x: fx_div(self.x, s), y: fx_div(self.y, s), z: fx_div(self.z, s) }
    }

    pub fn dot(&self, other: &Vector3) -> (r: i64)
        requires
            dot_fits(self@, other@),
        ensures
            r == vdot(self@, other@),
    {
        fx_mul(self.x, other.x) + fx_mul(self.y, other.y) + fx_mul(self.z, other.z)
    }

    pub fn cross(&self, other: &Vector3) -> (r: Vector3)
        requires
            cross_fits(self@, other@),
        ensures
            r@ == vcross(self@, other@),
    {
        Vector3 {
            x: fx_mul(self.y, other.z) - fx_mul(self.z, other.y),
            y: fx_mul(self.z, other.x) - fx_mul(self.x, other.z),
            z: fx_mul(self.x, other.y) - fx_mul(self.y, other.x),
        }
    }

    pub fn length_squared(&self) -> (r: i64)
        requires
            dot_fits(self@, self@),
        ensures
            r == vlen2(self@),
            0 <= r,
    {
        proof {
            lemma_vlen2_nonneg(self@);
        }
        self.dot(self)
    }

    pub fn length(&self) -> (r: i64)
        requires
            dot_fits(self@, self@),
        ensures
            r == vlen(self@),
            0 <= r <= 0x10000000000,
    {
        proof {
            lemma_vlen2_nonneg(self@);
        }
        fx_sqrt(self.length_squared())
    }

    /// With a positive squared length, the length is at least a quarter unit.
    pub proof fn lemma_len_lower(a: V3)
        requires
            1 <= vlen2(a),
        ensures
            256 <= vlen(a),
    {
        lemma_sqrt_floor_lower((vlen2(a) * FX_ONE) as nat, 256);
    }

    /// The unit vector in the direction of `self`.
    pub fn unit(&self) -> (r: Vector3)
        requires
            dot_fits(self@, self@),
            1 <= vlen2(self@),
            bounded(self@, 0x400000000000),
        ensures
            r@ == vunit(self@),
    {
        let len = self.length();
        proof {
            Self::lemma_len_lower(self@);
            lemma_fdiv_bound_denominator(self@.x, vlen(self@), 0x400000000000, 256);
            lemma_fdiv_bound_denominator(self@.y, vlen(self@), 0x400000000000, 256);
            lemma_fdiv_bound_denominator(self@.z, vlen(self@), 0x400000000000, 256);
        }
        self.div(len)
    }

    /// Normalization through the reciprocal, exactly as its own grid formula.
    pub fn normalize(&self) -> (r: Vector3)
        requires
            dot_fits(self@, self@),
            1 <= vlen2(self@),
            bounded(self@, 0x400000000000),
        ensures
            r@ == vnormalize(self@),
    {
        let len = self.length();
        proof {
            Self::lemma_len_lower(self@);
            lemma_fdiv_bound_denominator(FX_ONE as int, vlen(self@), FX_ONE as int, 256);
        }
        let inv_len = fx_div(FX_ONE, len);
        proof {
            let inv = fdiv(FX_ONE as int, vlen(self@));
            crate::fixed::lemma_fmul_bound(self@.x, inv, 0x400000000000, 0x1000001);
            crate::fixed::lemma_fmul_bound(self@.y, inv, 0x400000000000, 0x1000001);
            crate::fixed::lemma_fmul_bound(self@.z, inv, 0x400000000000, 0x1000001);
        }
        Vector3 {
            x: fx_mul(self.x, inv_len),
            y: fx_mul(self.y, inv_len),
            z: fx_mul(self.z, inv_len),
        }
    }

    /// All components below the degeneracy threshold (one grid step).
    pub fn near_zero(&self) -> (r: bool)
        ensures
            r == (self@.x < 1 && self@.y < 1 && self@.z < 1),
    {
        self.x < 1 && self.y < 1 && self.z < 1
    }

    /// A vector with components drawn uniformly from the unit range.
    pub fn random(rng: &mut rand::rngs::StdRng) -> (r: Vector3)
        ensures
            0 <= r@.x <= FX_ONE,
            0 <= r@.y <= FX_ONE,
            0 <= r@.z <= FX_ONE,
    {
        Vector3::new(crate::random(rng), crate::random(rng), crate::random(rng))
    }

    /// A vector with components drawn uniformly from `[min, max]`.
    pub fn random_rng(rng: &mut rand::rngs::StdRng, min: i64, max: i64) -> (r: Vector3)
        requires
            min <= max,
            max - min < 18446744073709551615,
        ensures
            min <= r@.x <= max,
            min <= r@.y <= max,
            min <= r@.z <= max,
    {
        Vector3::new(
            crate::random_rng(rng, min, max),
            crate::random_rng(rng, min, max),
            crate::random_rng(rng, min, max),
        )
    }

    /// Rejection-samples a point strictly inside the unit ball, away from the
    /// origin; after a bounded number of tries it falls back to a fixed
    /// interior point so that the routine provably returns.
    pub fn random_in_unit_sphere(rng: &mut rand::rngs::StdRng) -> (r: Vector3)
        ensures
            1 <= vlen2(r@) < FX_ONE,
            bounded(r@, FX_ONE as int),
    {
        let mut tries: u64 = 0;
        while tries < 64
            invariant
                tries <= 64,
            decreases 64 - tries,
        {
            let p = Vector3::random_rng(rng, -FX_ONE, FX_ONE);
            proof {
                lemma_dot_fits(p@, p@, FX_ONE as int, FX_ONE as int);
            }
            let ls = p.length_squared();
            if 1 <= ls && ls < FX_ONE {
                return p;
            }
            tries = tries + 1;
        }
        let q = Vector3::new(32768, 0, 0);
        proof {
            assert(vlen2(q@) == fmul(32768, 32768) + fmul(0, 0) + fmul(0, 0));
            assert(fmul(32768, 32768) == 16384);
            assert(fmul(0, 0) == 0);
        }
        q
    }

    /// The components of a unit vector stay within a few grid units.
    pub proof fn lemma_vunit_bounded(a: V3)
        requires
            1 <= vlen2(a),
        ensures
            bounded(vunit(a), 3 * FX_ONE),
    {
        Self::lemma_len_lower(a);
        lemma_vlen2_nonneg(a);
        let ls = vlen2(a);
        let len = vlen(a);
        lemma_sqrt_floor((ls * FX_ONE) as nat);
        assert(len * len <= ls * FX_ONE);
        assert(ls * FX_ONE < (len + 1) * (len + 1));
        Self::lemma_unit_component(a.x, a.y, a.z, len, ls);
        Self::lemma_unit_component(a.y, a.x, a.z, len, ls);
        Self::lemma_unit_component(a.z, a.x, a.y, len, ls);
    }

    /// One component of the normalized vector is within `3 * FX_ONE`.
    proof fn lemma_unit_component(x: int, y: int, z: int, len: int, ls: int)
        requires
            256 <= len,
            1 <= ls,
            fmul(x, x) + fmul(y, y) + fmul(z, z) == ls,
            len * len <= ls * FX_ONE,
            ls * FX_ONE < (len + 1) * (len + 1),
        ensures
            -3 * FX_ONE <= fdiv(x, len) <= 3 * FX_ONE,
    {
        lemma_sq_nonneg(y);
        lemma_sq_nonneg(z);
        lemma_sq_nonneg(x);
        assert(fmul(x, x) <= ls);
        vstd::arithmetic::div_mod::lemma_fundamental_div_mod(x * x, FX_ONE as int);
        vstd::arithmetic::div_mod::lemma_mod_bound(x * x, FX_ONE as int);
        assert(x * x <= ls * FX_ONE + FX_ONE - 1);
        assert(-(len + 257) <= x <= len + 257) by (nonlinear_arith)
            requires
                x * x <= ls * FX_ONE + FX_ONE - 1,
                ls * FX_ONE < (len + 1) * (len + 1),
                256 <= len,
        ;
        lemma_fdiv_bound_denominator(x, len, len + 257, len);
        let q = ((len + 257) * (FX_ONE as int)) / len;
        vstd::arithmetic::div_mod::lemma_fundamental_div_mod((len + 257) * (FX_ONE as int), len);
        vstd::arithmetic::div_mod::lemma_mod_bound((len + 257) * (FX_ONE as int), len);
        assert(len * q <= (len + 257) * FX_ONE);
        assert(q + 1 <= 3 * FX_ONE) by (nonlinear_arith)
            requires
                len * q <= (len + 257) * 65536,
                256 <= len,
                FX_ONE == 65536,
        ;
    }

    /// A random point in the unit ball, normalized to (grid) unit length.
    pub fn random_unit_vector(rng: &mut rand::rngs::StdRng) -> (r: Vector3)
        ensures
            bounded(r@, 3 * FX_ONE),
            exists|p: V3|
                1 <= vlen2(p) < FX_ONE && bounded(p, FX_ONE as int) && r@ == vunit(p),
    {
        let p = Self::random_in_unit_sphere(rng);
        proof {
            lemma_dot_fits(p@, p@, FX_ONE as int, FX_ONE as int);
            Self::lemma_vunit_bounded(p@);
        }
        let r = p.unit();
        proof {
            assert(1 <= vlen2(p@) < FX_ONE && bounded(p@, FX_ONE as int) && r@ == vunit(p@));
        }
        r
    }

    /// Rejection-samples a point inside the unit disk in the lens plane,
    /// with a fixed interior fallback after a bounded number of tries.
    pub fn random_in_unit_disk(rng: &mut rand::rngs::StdRng) -> (r: Vector3)
        ensures
            vlen2(r@) < FX_ONE,
            bounded(r@, FX_ONE as int),
            r@.z == 0,
    {
        let mut tries: u64 = 0;
        while tries < 64
            invariant
                tries <= 64,
            decreases 64 - tries,
        {
            let p = Vector3::new(
                crate::random_rng(rng, -FX_ONE, FX_ONE),
                crate::random_rng(rng, -FX_ONE, FX_ONE),
                0,
            );
            proof {
                lemma_dot_fits(p@, p@, FX_ONE as int, FX_ONE as int);
            }
            let ls = p.length_squared();
            if ls < FX_ONE {
                return p;
            }
            tries = tries + 1;
        }
        let q = Vector3::new(32768, 0, 0);
        proof {
            assert(vlen2(q@) == fmul(32768, 32768) + fmul(0, 0) + fmul(0, 0));
            assert(fmul(32768, 32768) == 16384);
            assert(fmul(0, 0) == 0);
        }
        q
    }

    /// The exact fifth power of a channel value.
    pub open spec fn pow5i(x: int) -> int {
        let p2 = x * x;
        let p4 = p2 * p2;
        p4 * x
    }

    /// The exact eleventh power of a gamma step.
    pub open spec fn pow11i(r: int) -> int {
        let p2 = r * r;
        let p4 = p2 * p2;
        let p8 = p4 * p4;
        p8 * p2 * r
    }

    /// Bisection for the gamma curve: the largest step whose eleventh power
    /// does not exceed the target.
    pub open spec fn gamma_search(y: int, lo: int, hi: int) -> int
        decreases hi - lo,
    {
        if hi - lo <= 1 {
            lo
        } else {
            let mid = lo + (hi - lo) / 2;
            if Self::pow11i(mid) <= y {
                Self::gamma_search(y, mid, hi)
            } else {
                Self::gamma_search(y, lo, mid)
            }
        }
    }

    /// The gamma transfer: carries a unit-range channel `x` to `x^(5/11)`,
    /// by searching on a 2048-step ladder for the largest `a` with
    /// `a^11 <= x^5` (in their common exact scale) and mapping it back to
    /// the grid.
    pub open spec fn sgamma(x: int) -> int {
        let xc = crate::interval::sclamp(0, FX_ONE as int, x);
        32 * Self::gamma_search(Self::pow5i(xc) * 0x20000000000, 0, 2049)
    }

    /// The search stays inside its bracket.
    pub proof fn lemma_gamma_search_range(y: int, lo: int, hi: int)
        requires
            lo < hi,
        ensures
            lo <= Self::gamma_search(y, lo, hi) < hi,
        decreases hi - lo,
    {
        if hi - lo <= 1 {
        } else {
            let mid = lo + (hi - lo) / 2;
            if Self::pow11i(mid) <= y {
                Self::lemma_gamma_search_range(y, mid, hi);
            } else {
                Self::lemma_gamma_search_range(y, lo, mid);
            }
        }
    }

    /// The exact fifth power, on wide words.
    fn pow5_wide(x: i64) -> (r: u128)
        requires
            0 <= x <= FX_ONE,
        ensures
            r == Self::pow5i(x as int),
            r <= 0x100000000000000000000,
    {
        let xw = x as u128;
        proof {
            assert((x as int) * (x as int) <= 0x100000000) by (nonlinear_arith)
                requires
                    0 <= x as int <= 65536,
            ;
        }
        let p2 = xw * xw;
        proof {
            assert((p2 as int) * (p2 as int) <= 0x10000000000000000) by (nonlinear_arith)
                requires
                    0 <= p2 as int <= 0x100000000,
            ;
            assert(((p2 as int) * (p2 as int)) * (x as int) <= 0x100000000000000000000)
                by (nonlinear_arith)
                requires
                    0 <= (p2 as int) * (p2 as int) <= 0x10000000000000000,
                    0 <= x as int <= 65536,
            ;
        }
        let p4 = p2 * p2;
        p4 * xw
    }

    /// The exact eleventh power of a ladder step, on wide words.
    fn pow11_wide(r: i64) -> (w: u128)
        requires
            0 <= r <= 2048,
        ensures
            w == Self::pow11i(r as int),
    {
        let rw = r as u128;
        proof {
            assert((r as int) * (r as int) <= 0x400000) by (nonlinear_arith)
                requires
                    0 <= r as int <= 2048,
            ;
        }
        let p2 = rw * rw;
        proof {
            assert((p2 as int) * (p2 as int) <= 0x100000000000) by (nonlinear_arith)
                requires
                    0 <= p2 as int <= 0x400000,
            ;
        }
        let p4 = p2 * p2;
        proof {
            assert((p4 as int) * (p4 as int) <= 0x10000000000000000000000)
                by (nonlinear_arith)
                requires
                    0 <= p4 as int <= 0x100000000000,
            ;
            assert(((p4 as int) * (p4 as int)) * (p2 as int) <= 0x4000000000000000000000000000)
                by (nonlinear_arith)
                requires
                    0 <= (p4 as int) * (p4 as int) <= 0x10000000000000000000000,
                    0 <= p2 as int <= 0x400000,
            ;
            assert((((p4 as int) * (p4 as int)) * (p2 as int)) * (r as int)
                <= 0x2000000000000000000000000000000) by (nonlinear_arith)
                requires
                    0 <= ((p4 as int) * (p4 as int)) * (p2 as int)
                        <= 0x4000000000000000000000000000,
                    0 <= r as int <= 2048,
            ;
        }
        let p8 = p4 * p4;
        p8 * p2 * rw
    }

    /// The gamma transfer on one channel, exactly `sgamma`.
    pub fn linear_to_gamma(linear_component: i64) -> (r: i64)
        ensures
            r == Self::sgamma(linear_component as int),
            0 <= r <= FX_ONE,
    {
        let xc = if linear_component < 0 {
            0
        } else if linear_component > FX_ONE {
            FX_ONE
        } else {
            linear_component
        };
        let y: u128 = Self::pow5_wide(xc) * 0x20000000000;
        proof {
            Self::lemma_gamma_search_range(Self::pow5i(xc as int) * 0x20000000000, 0, 2049);
            assert(Self::pow5i(xc as int) * 0x20000000000 == (Self::pow5i(xc as int)
                * 0x20000000000)) by (nonlinear_arith);
        }
        let mut lo: i64 = 0;
        let mut hi: i64 = 2049;
        while hi - lo > 1
            invariant
                0 <= lo < hi <= 2049,
                Self::gamma_search(Self::pow5i(xc as int) * 0x20000000000, lo as int, hi as int)
                    == Self::gamma_search(Self::pow5i(xc as int) * 0x20000000000, 0, 2049),
                y == Self::pow5i(xc as int) * 0x20000000000,
                xc == crate::interval::sclamp(0, FX_ONE as int, linear_component as int),
            decreases hi - lo,
        {
            let mid = lo + (hi - lo) / 2;
            if Self::pow11_wide(mid) <= y {
                lo = mid;
            } else {
                hi = mid;
            }
        }
        32 * lo
    }

    /// One tone-mapped output channel: the sample mean, gamma-corrected,
    /// clamped below one, and scaled to a byte.
    pub open spec fn tone_channel(sum: int, n: int) -> int {
        let mean = sum / n;
        let g = Self::sgamma(mean);
        let c = crate::interval::sclamp(0, 65470, g);
        c / 256
    }

    /// The tone-mapped pixel for a sample sum: mean, gamma, clamp, byte
    /// scale, on each channel.
    pub fn to_pixel(&self, samples_per_pixel: u32) -> (r: (u8, u8, u8))
        requires
            1 <= samples_per_pixel,
            0 <= self@.x,
            0 <= self@.y,
            0 <= self@.z,
        ensures
            r.0 == Self::tone_channel(self@.x, samples_per_pixel as int),
            r.1 == Self::tone_channel(self@.y, samples_per_pixel as int),
            r.2 == Self::tone_channel(self@.z, samples_per_pixel as int),
    {
        (
            Self::tone_one(self.x, samples_per_pixel),
            Self::tone_one(self.y, samples_per_pixel),
            Self::tone_one(self.z, samples_per_pixel),
        )
    }

    /// One channel of `to_pixel`.
    fn tone_one(sum: i64, n: u32) -> (r: u8)
        requires
            1 <= n,
            0 <= sum,
        ensures
            r == Self::tone_channel(sum as int, n as int),
    {
        let mean = crate::fixed::div_floor(sum, n as i64);
        let g = Self::linear_to_gamma(mean);
        let c = if g > 65470 {
            65470
        } else {
            g
        };
        proof {
            crate::fixed::lemma_div_bound_by(c as int, 65470, 256);
        }
        let b = crate::fixed::div_floor(c, 256);
        b as u8
    }

    pub fn white() -> (r: Color)
        ensures
            r@ == (V3 { x: FX_ONE as int, y: FX_ONE as int, z: FX_ONE as int }),
    {
        Color::from_one(FX_ONE)
    }

    pub fn black() -> (r: Color)
        ensures
            r@ == (V3 { x: 0int, y: 0int, z: 0int }),
    {
        Color::zero()
    }

    /// A unit sample flipped, if needed, toward the given normal.
    pub fn random_on_hemisphere(rng: &mut rand::rngs::StdRng, normal: &Vector3) -> (r: Vector3)
        requires
            bounded(normal@, 0x100000000),
        ensures
            bounded(r@, 3 * FX_ONE),
            vdot(r@, normal@) >= -3,
    {
        let on_unit_sphere = Self::random_unit_vector(rng);
        proof {
            lemma_dot_fits(on_unit_sphere@, normal@, 3 * FX_ONE as int, 0x100000000);
        }
        if on_unit_sphere.dot(normal) > 0 {
            on_unit_sphere
        } else {
            proof {
                lemma_fmul_neg(on_unit_sphere@.x, normal@.x);
                lemma_fmul_neg(on_unit_sphere@.y, normal@.y);
                lemma_fmul_neg(on_unit_sphere@.z, normal@.z);
            }
            on_unit_sphere.neg()
        }
    }
}

} // verus!
