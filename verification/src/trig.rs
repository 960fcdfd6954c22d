//! Trigonometry on the fixed-point grid.
//!
//! Sine and cosine are truncated power series on the first quadrant, clamped
//! to the unit range, and extended by quadrant symmetry; the inverse
//! functions are bisection searches against those series.  Every executable
//! function returns exactly what its spec mirror computes.

use crate::fixed::{
    div_floor, fdiv, fmul, fx_div, fx_mul, iabs, lemma_fmul_bound, lemma_fmul_nonneg, mod_floor,
    FX_ONE,
};
use crate::interval::sclamp;
use vstd::prelude::*;

verus! {

/// Half a turn on the grid.
pub const PI_FX: i64 = 205887;

/// A full turn on the grid.
pub const TWO_PI_FX: i64 = 411775;

/// A quarter turn on the grid.
pub const HALF_PI_FX: i64 = 102944;

/// One degree, in grid radians.
pub const RAD_PER_DEG_FX: i64 = 1144;

/// Degrees to radians on the grid.
pub open spec fn sto_radians(deg: int) -> int {
    fmul(deg, RAD_PER_DEG_FX as int)
}

/// Degrees to radians.
pub fn to_radians(deg: i64) -> (r: i64)
    requires
        -0x40000000 <= deg <= 0x40000000,
    ensures
        r == sto_radians(deg as int),
        -0x12000000000 <= r <= 0x12000000000,
{
    proof {
        lemma_fmul_bound(deg as int, RAD_PER_DEG_FX as int, 0x40000000, 1144);
    }
    fx_mul(deg, RAD_PER_DEG_FX)
}

/// First-quadrant sine: the odd series through the ninth power, clamped.
pub open spec fn sin_q(x: int) -> int {
    let x2 = fmul(x, x);
    let x3 = fmul(x2, x);
    let x5 = fmul(x3, x2);
    let x7 = fmul(x5, x2);
    let x9 = fmul(x7, x2);
    sclamp(-(FX_ONE as int), FX_ONE as int, x - x3 / 6 + x5 / 120 - x7 / 5040 + x9 / 362880)
}

/// First-quadrant cosine: the even series through the tenth power, clamped.
pub open spec fn cos_q(x: int) -> int {
    let x2 = fmul(x, x);
    let x4 = fmul(x2, x2);
    let x6 = fmul(x4, x2);
    let x8 = fmul(x6, x2);
    let x10 = fmul(x8, x2);
    sclamp(
        -(FX_ONE as int),
        FX_ONE as int,
        FX_ONE - x2 / 2 + x4 / 24 - x6 / 720 + x8 / 40320 - x10 / 3628800,
    )
}

/// Full-range sine by quadrant reduction.
pub open spec fn ssin(x: int) -> int {
    let m = x % (TWO_PI_FX as int);
    let q = m / (HALF_PI_FX as int);
    let rem = m % (HALF_PI_FX as int);
    if q == 0 {
        sin_q(rem)
    } else if q == 1 {
        cos_q(rem)
    } else if q == 2 {
        -sin_q(rem)
    } else {
        -cos_q(rem)
    }
}

/// Full-range cosine by quadrant reduction.
pub open spec fn scos(x: int) -> int {
    let m = x % (TWO_PI_FX as int);
    let q = m / (HALF_PI_FX as int);
    let rem = m % (HALF_PI_FX as int);
    if q == 0 {
        cos_q(rem)
    } else if q == 1 {
        -sin_q(rem)
    } else if q == 2 {
        -cos_q(rem)
    } else {
        sin_q(rem)
    }
}

/// The tangent: sine over cosine, clamped to a wide but finite range, and
/// zero where the grid cosine vanishes.
pub open spec fn stan(x: int) -> int {
    let c = scos(x);
    if c == 0 {
        0
    } else {
        sclamp(-64 * (FX_ONE as int), 64 * (FX_ONE as int), fdiv(ssin(x), c))
    }
}

/// Bisection for the inverse cosine: narrows `[lo, hi]` to the step where
/// the grid cosine crosses `c`.
pub open spec fn acos_search(c: int, lo: int, hi: int) -> int
    decreases hi - lo,
{
    if hi - lo <= 1 {
        lo
    } else {
        let mid = lo + (hi - lo) / 2;
        if scos(mid) >= c {
            acos_search(c, mid, hi)
        } else {
            acos_search(c, lo, mid)
        }
    }
}

/// The inverse cosine on the grid.
pub open spec fn sacos(c: int) -> int {
    acos_search(c, 0, PI_FX as int)
}

/// Bisection for the inverse tangent on the first half-quadrant.
pub open spec fn atan_search(t: int, lo: int, hi: int) -> int
    decreases hi - lo,
{
    if hi - lo <= 1 {
        lo
    } else {
        let mid = lo + (hi - lo) / 2;
        if stan(mid) <= t {
            atan_search(t, mid, hi)
        } else {
            atan_search(t, lo, mid)
        }
    }
}

/// The inverse tangent of a ratio in the unit range.
pub open spec fn satan(t: int) -> int {
    atan_search(t, 0, 51473)
}

/// The two-argument inverse tangent, by octant reduction.
pub open spec fn satan2(b: int, a: int) -> int {
    if a == 0 && b == 0 {
        0
    } else {
        let aa = iabs(a);
        let ab = iabs(b);
        let psi = if ab <= aa {
            satan(fdiv(ab, aa))
        } else {
            HALF_PI_FX - satan(fdiv(aa, ab))
        };
        if a >= 0 && b >= 0 {
            psi
        } else if a < 0 && b >= 0 {
            PI_FX - psi
        } else if a < 0 {
            -(PI_FX - psi)
        } else {
            -psi
        }
    }
}

/// The search stays inside its bracket.
pub proof fn lemma_acos_search_range(c: int, lo: int, hi: int)
    requires
        lo < hi,
    ensures
        lo <= acos_search(c, lo, hi) < hi,
    decreases hi - lo,
{
    if hi - lo <= 1 {
    } else {
        let mid = lo + (hi - lo) / 2;
        if scos(mid) >= c {
            lemma_acos_search_range(c, mid, hi);
        } else {
            lemma_acos_search_range(c, lo, mid);
        }
    }
}

/// The search stays inside its bracket.
pub proof fn lemma_atan_search_range(t: int, lo: int, hi: int)
    requires
        lo < hi,
    ensures
        lo <= atan_search(t, lo, hi) < hi,
    decreases hi - lo,
{
    if hi - lo <= 1 {
    } else {
        let mid = lo + (hi - lo) / 2;
        if stan(mid) <= t {
            lemma_atan_search_range(t, mid, hi);
        } else {
            lemma_atan_search_range(t, lo, mid);
        }
    }
}

/// First-quadrant sine, exactly `sin_q`.
fn sin_q_fx(x: i64) -> (r: i64)
    requires
        0 <= x <= HALF_PI_FX,
    ensures
        r == sin_q(x as int),
        -FX_ONE <= r <= FX_ONE,
{
    proof {
        lemma_fmul_nonneg(x as int, x as int);
        lemma_fmul_bound(x as int, x as int, 102944, 102944);
        lemma_fmul_nonneg(fmul(x as int, x as int), x as int);
        lemma_fmul_bound(fmul(x as int, x as int), x as int, 161705, 102944);
    }
    let x2 = fx_mul(x, x);
    let x3 = fx_mul(x2, x);
    proof {
        lemma_fmul_nonneg(x3 as int, x2 as int);
        lemma_fmul_bound(x3 as int, x2 as int, 254007, 161705);
    }
    let x5 = fx_mul(x3, x2);
    proof {
        lemma_fmul_nonneg(x5 as int, x2 as int);
        lemma_fmul_bound(x5 as int, x2 as int, 626743, 161705);
    }
    let x7 = fx_mul(x5, x2);
    proof {
        lemma_fmul_nonneg(x7 as int, x2 as int);
        lemma_fmul_bound(x7 as int, x2 as int, 1546440, 161705);
    }
    let x9 = fx_mul(x7, x2);
    let t = x - div_floor(x3, 6) + div_floor(x5, 120) - div_floor(x7, 5040) + div_floor(
        x9,
        362880,
    );
    proof {
        crate::fixed::lemma_div_bound_by(x3 as int, 254007, 6);
        crate::fixed::lemma_div_bound_by(x5 as int, 626743, 120);
        crate::fixed::lemma_div_bound_by(x7 as int, 1546440, 5040);
        crate::fixed::lemma_div_bound_by(x9 as int, 3815721, 362880);
    }
    clamp_one(t)
}

/// First-quadrant cosine, exactly `cos_q`.
fn cos_q_fx(x: i64) -> (r: i64)
    requires
        0 <= x <= HALF_PI_FX,
    ensures
        r == cos_q(x as int),
        -FX_ONE <= r <= FX_ONE,
{
    proof {
        lemma_fmul_nonneg(x as int, x as int);
        lemma_fmul_bound(x as int, x as int, 102944, 102944);
    }
    let x2 = fx_mul(x, x);
    proof {
        lemma_fmul_nonneg(x2 as int, x2 as int);
        lemma_fmul_bound(x2 as int, x2 as int, 161705, 161705);
    }
    let x4 = fx_mul(x2, x2);
    proof {
        lemma_fmul_nonneg(x4 as int, x2 as int);
        lemma_fmul_bound(x4 as int, x2 as int, 398995, 161705);
    }
    let x6 = fx_mul(x4, x2);
    proof {
        lemma_fmul_nonneg(x6 as int, x2 as int);
        lemma_fmul_bound(x6 as int, x2 as int, 984490, 161705);
    }
    let x8 = fx_mul(x6, x2);
    proof {
        lemma_fmul_nonneg(x8 as int, x2 as int);
        lemma_fmul_bound(x8 as int, x2 as int, 2429153, 161705);
    }
    let x10 = fx_mul(x8, x2);
    let t = FX_ONE - div_floor(x2, 2) + div_floor(x4, 24) - div_floor(x6, 720) + div_floor(
        x8,
        40320,
    ) - div_floor(x10, 3628800);
    proof {
        crate::fixed::lemma_div_bound_by(x2 as int, 161705, 2);
        crate::fixed::lemma_div_bound_by(x4 as int, 398995, 24);
        crate::fixed::lemma_div_bound_by(x6 as int, 984490, 720);
        crate::fixed::lemma_div_bound_by(x8 as int, 2429153, 40320);
        crate::fixed::lemma_div_bound_by(x10 as int, 5993747, 3628800);
    }
    clamp_one(t)
}

/// Clamp to the unit range.
fn clamp_one(t: i64) -> (r: i64)
    ensures
        r == sclamp(-(FX_ONE as int), FX_ONE as int, t as int),
        -FX_ONE <= r <= FX_ONE,
{
    if t < -FX_ONE {
        -FX_ONE
    } else if t > FX_ONE {
        FX_ONE
    } else {
        t
    }
}

/// The reduction of an angle to a quadrant and a remainder.
fn reduce(x: i64) -> (r: (i64, i64))
    requires
        -0x4000000000000000 <= x <= 0x4000000000000000,
    ensures
        r.0 == (x as int % (TWO_PI_FX as int)) / (HALF_PI_FX as int),
        r.1 == (x as int % (TWO_PI_FX as int)) % (HALF_PI_FX as int),
        0 <= r.0 <= 3,
        0 <= r.1 < HALF_PI_FX,
{
    let m = mod_floor(x, TWO_PI_FX);
    let q = div_floor(m, HALF_PI_FX);
    let rem = mod_floor(m, HALF_PI_FX);
    proof {
        vstd::arithmetic::div_mod::lemma_fundamental_div_mod(m as int, HALF_PI_FX as int);
    }
    (q, rem)
}

/// Sine of any grid angle, exactly `ssin`.
pub fn sin_fx(x: i64) -> (r: i64)
    requires
        -0x4000000000000000 <= x <= 0x4000000000000000,
    ensures
        r == ssin(x as int),
        -FX_ONE <= r <= FX_ONE,
{
    let (q, rem) = reduce(x);
    if q == 0 {
        sin_q_fx(rem)
    } else if q == 1 {
        cos_q_fx(rem)
    } else if q == 2 {
        -sin_q_fx(rem)
    } else {
        -cos_q_fx(rem)
    }
}

/// Cosine of any grid angle, exactly `scos`.
pub fn cos_fx(x: i64) -> (r: i64)
    requires
        -0x4000000000000000 <= x <= 0x4000000000000000,
    ensures
        r == scos(x as int),
        -FX_ONE <= r <= FX_ONE,
{
    let (q, rem) = reduce(x);
    if q == 0 {
        cos_q_fx(rem)
    } else if q == 1 {
        -sin_q_fx(rem)
    } else if q == 2 {
        -cos_q_fx(rem)
    } else {
        sin_q_fx(rem)
    }
}

/// Tangent of any grid angle, exactly `stan`.
pub fn tan_fx(x: i64) -> (r: i64)
    requires
        -0x4000000000000000 <= x <= 0x4000000000000000,
    ensures
        r == stan(x as int),
        -64 * FX_ONE <= r <= 64 * FX_ONE,
{
    let s = sin_fx(x);
    let c = cos_fx(x);
    if c == 0 {
        0
    } else {
        proof {
            crate::fixed::lemma_fdiv_bound(s as int, c as int, 65536);
        }
        let t = fx_div(s, c);
        if t < -64 * FX_ONE {
            -64 * FX_ONE
        } else if t > 64 * FX_ONE {
            64 * FX_ONE
        } else {
            t
        }
    }
}

/// The inverse cosine on the grid, exactly `sacos`, within a half turn.
pub fn acos_fx(c: i64) -> (r: i64)
    requires
        -FX_ONE <= c <= FX_ONE,
    ensures
        r == sacos(c as int),
        0 <= r < PI_FX,
{
    proof {
        lemma_acos_search_range(c as int, 0, PI_FX as int);
    }
    let mut lo: i64 = 0;
    let mut hi: i64 = PI_FX;
    while hi - lo > 1
        invariant
            0 <= lo < hi <= PI_FX,
            acos_search(c as int, lo as int, hi as int) == sacos(c as int),
        decreases hi - lo,
    {
        let mid = lo + (hi - lo) / 2;
        if cos_fx(mid) >= c {
            lo = mid;
        } else {
            hi = mid;
        }
    }
    lo
}

/// The inverse tangent of a unit-range ratio, exactly `satan`, within half a
/// quadrant.
pub fn atan_fx(t: i64) -> (r: i64)
    requires
        0 <= t <= FX_ONE,
    ensures
        r == satan(t as int),
        0 <= r <= 51473,
{
    proof {
        lemma_atan_search_range(t as int, 0, 51473);
    }
    let mut lo: i64 = 0;
    let mut hi: i64 = 51473;
    while hi - lo > 1
        invariant
            0 <= lo < hi <= 51473,
            atan_search(t as int, lo as int, hi as int) == satan(t as int),
        decreases hi - lo,
    {
        let mid = lo + (hi - lo) / 2;
        if tan_fx(mid) <= t {
            lo = mid;
        } else {
            hi = mid;
        }
    }
    lo
}

/// The two-argument inverse tangent, exactly `satan2`, within a half turn
/// of either sign.
pub fn atan2_fx(b: i64, a: i64) -> (r: i64)
    requires
        -0x100000000 <= a <= 0x100000000,
        -0x100000000 <= b <= 0x100000000,
    ensures
        r == satan2(b as int, a as int),
        -PI_FX <= r <= PI_FX,
{
    if a == 0 && b == 0 {
        return 0;
    }
    let aa = crate::fixed::abs_i64(a);
    let ab = crate::fixed::abs_i64(b);
    let psi = if ab <= aa {
        proof {
            crate::fixed::lemma_fdiv_ratio_unit(ab as int, aa as int);
        }
        atan_fx(fx_div(ab, aa))
    } else {
        proof {
            crate::fixed::lemma_fdiv_ratio_unit(aa as int, ab as int);
        }
        HALF_PI_FX - atan_fx(fx_div(aa, ab))
    };
    if a >= 0 && b >= 0 {
        psi
    } else if a < 0 && b >= 0 {
        PI_FX - psi
    } else if a < 0 {
        -(PI_FX - psi)
    } else {
        -psi
    }
}

} // verus!
