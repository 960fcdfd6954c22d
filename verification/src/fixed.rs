//! Fixed-point scalar arithmetic.
//!
//! Every scalar of the renderer lives on a grid with `FX_ONE` steps per unit:
//! the `i64` value `v` stands for the real number `v / FX_ONE`.  Products and
//! quotients are floored back to the grid, so every operation has an exact
//! integer meaning that the contracts state directly.

use vstd::arithmetic::div_mod::{
    lemma_div_is_ordered, lemma_div_is_ordered_by_denominator, lemma_fundamental_div_mod,
    lemma_fundamental_div_mod_converse,
};
use vstd::prelude::*;

verus! {

/// One whole unit on the fixed-point grid (16 fractional bits).
pub const FX_ONE: i64 = 65536;

/// Product of two grid scalars, floored back to the grid.
pub open spec fn fmul(a: int, b: int) -> int {
    (a * b) / (FX_ONE as int)
}

/// Quotient of two grid scalars on the grid.  The divisor's sign is taken
/// out first, so the floored quotient `(a * FX_ONE) / |b|` is all that is
/// ever divided.
pub open spec fn fdiv(a: int, b: int) -> int {
    if b >= 0 {
        (a * FX_ONE) / b
    } else {
        -((a * FX_ONE) / (-b))
    }
}

/// Euclidean quotient of a wide intermediate by a positive divisor.
fn div_euclid_i128(p: i128, d: i128) -> (q: i128)
    requires
        1 <= d,
        -170141183460469231731687303715884105727 <= p,
    ensures
        q == p as int / d as int,
{
    if p >= 0 {
        let pu: u128 = p as u128;
        let du: u128 = d as u128;
        let qu: u128 = pu / du;
        proof {
            lemma_div_is_ordered(qu as int, pu as int, 1);
        }
        qu as i128
    } else {
        let mu: u128 = (-p) as u128;
        let du: u128 = d as u128;
        let qu: u128 = (mu - 1) / du;
        proof {
            let m1 = (mu - 1) as int;
            let di = d as int;
            lemma_fundamental_div_mod(m1, di);
            let q0 = m1 / di;
            let r0 = m1 % di;
            assert(p == (-q0 - 1) * di + (di - r0 - 1)) by (nonlinear_arith)
                requires
                    m1 == di * q0 + r0,
                    p == -m1 - 1,
            ;
            lemma_fundamental_div_mod_converse(p as int, di, -q0 - 1, di - r0 - 1);
            lemma_div_is_ordered(qu as int, m1, 1);
        }
        let qi: i128 = qu as i128;
        -(qi + 1)
    }
}

/// Fixed-point multiplication: exact wide product, floored back to the grid.
pub fn fx_mul(a: i64, b: i64) -> (r: i64)
    requires
        i64::MIN <= fmul(a as int, b as int) <= i64::MAX,
    ensures
        r == fmul(a as int, b as int),
{
    let p: i128 = (a as i128) * (b as i128);
    let q = div_euclid_i128(p, 65536);
    q as i64
}

/// Fixed-point division: `a / b` on the grid, via the Euclidean quotient.
pub fn fx_div(a: i64, b: i64) -> (r: i64)
    requires
        b != 0,
        i64::MIN <= fdiv(a as int, b as int) <= i64::MAX,
    ensures
        r == fdiv(a as int, b as int),
{
    let p: i128 = (a as i128) * 65536;
    if b > 0 {
        let q = div_euclid_i128(p, b as i128);
        q as i64
    } else {
        let q = div_euclid_i128(p, -(b as i128));
        (-q) as i64
    }
}

/// Euclidean quotient of a scalar by a positive divisor.
pub fn div_floor(x: i64, d: i64) -> (r: i64)
    requires
        1 <= d,
        i64::MIN < x,
    ensures
        r == x as int / d as int,
{
    proof {
        vstd::arithmetic::div_mod::lemma_div_of0(d as int);
        if x < 0 {
            vstd::arithmetic::div_mod::lemma_div_nonincreasing(-(x as int), d as int);
            lemma_div_neg_num(-(x as int), d as int);
            lemma_div_is_ordered(-(x as int), -(x as int), d as int);
        } else {
            vstd::arithmetic::div_mod::lemma_div_nonincreasing(x as int, d as int);
            lemma_div_is_ordered(0, x as int, d as int);
        }
    }
    let q = div_euclid_i128(x as i128, d as i128);
    q as i64
}

/// Euclidean remainder of a scalar by a positive divisor.
pub fn mod_floor(x: i64, d: i64) -> (r: i64)
    requires
        1 <= d,
        i64::MIN < x,
    ensures
        r == x as int % d as int,
        0 <= r < d,
{
    let q = div_floor(x, d);
    proof {
        lemma_fundamental_div_mod(x as int, d as int);
        vstd::arithmetic::div_mod::lemma_mod_bound(x as int, d as int);
        assert((q as int) * (d as int) == (d as int) * (q as int)) by (nonlinear_arith);
        assert((q as int) * (d as int) == x - (x as int % d as int));
    }
    ((x as i128) - (q as i128) * (d as i128)) as i64
}

/// The integer part of a grid scalar, as a lattice coordinate.
pub fn fx_floor(x: i64) -> (r: i64)
    requires
        i64::MIN < x,
    ensures
        r == x as int / 65536,
{
    div_floor(x, FX_ONE)
}

/// The fractional part of a grid scalar, still on the grid.
pub fn fx_fract(x: i64) -> (r: i64)
    requires
        i64::MIN < x,
    ensures
        r == x as int % 65536,
        0 <= r < 65536,
{
    mod_floor(x, FX_ONE)
}

/// Absolute value, in specifications.
pub open spec fn iabs(x: int) -> int {
    if x < 0 {
        -x
    } else {
        x
    }
}

/// Absolute value.
pub fn abs_i64(x: i64) -> (r: i64)
    requires
        x != i64::MIN,
    ensures
        r == iabs(x as int),
{
    if x < 0 {
        -x
    } else {
        x
    }
}

/// Integer square root: the largest `r` with `r * r <= n`.
pub open spec fn sqrt_floor(n: nat) -> nat
    decreases n,
{
    if n == 0 {
        0
    } else {
        let s = sqrt_floor((n - 1) as nat);
        if (s + 1) * (s + 1) <= n {
            s + 1
        } else {
            s
        }
    }
}

/// `sqrt_floor` really is the floored square root.
pub proof fn lemma_sqrt_floor(n: nat)
    ensures
        sqrt_floor(n) * sqrt_floor(n) <= n,
        n < (sqrt_floor(n) + 1) * (sqrt_floor(n) + 1),
    decreases n,
{
    if n == 0 {
        assert(sqrt_floor(0nat) == 0);
        assert(n < (sqrt_floor(n) + 1) * (sqrt_floor(n) + 1)) by (nonlinear_arith)
            requires
                n == 0,
                sqrt_floor(n) == 0,
        ;
    } else {
        lemma_sqrt_floor((n - 1) as nat);
        let s = sqrt_floor((n - 1) as nat);
        assert(n - 1 < (s + 1) * (s + 1));
        if (s + 1) * (s + 1) <= n {
            assert(sqrt_floor(n) == s + 1);
            assert((s + 1) * (s + 1) < (s + 2) * (s + 2)) by (nonlinear_arith)
                requires
                    0 <= s,
            ;
            assert(n <= (s + 1) * (s + 1));
            assert(n < (sqrt_floor(n) + 1) * (sqrt_floor(n) + 1));
        } else {
            assert(sqrt_floor(n) == s);
            assert(s * s <= n - 1 <= n);
            assert(n < (sqrt_floor(n) + 1) * (sqrt_floor(n) + 1));
        }
    }
}

/// Any `r` whose square brackets `n` is the floored square root.
pub proof fn lemma_sqrt_floor_unique(n: nat, r: nat)
    requires
        r * r <= n,
        n < (r + 1) * (r + 1),
    ensures
        r == sqrt_floor(n),
{
    lemma_sqrt_floor(n);
    let s = sqrt_floor(n);
    if r < s {
        assert((r + 1) * (r + 1) <= s * s) by (nonlinear_arith)
            requires
                r + 1 <= s,
        ;
        assert(false);
    } else if s < r {
        assert((s + 1) * (s + 1) <= r * r) by (nonlinear_arith)
            requires
                s + 1 <= r,
        ;
        assert(false);
    }
}

/// Binary search for the integer square root of a wide value.
fn isqrt_u128(n: u128) -> (r: u128)
    ensures
        r as nat == sqrt_floor(n as nat),
        r * r <= n,
{
    let mut lo: u128 = 0;
    let mut hi: u128 = 18446744073709551616;
    while lo + 1 < hi
        invariant
            lo < hi <= 18446744073709551616,
            (lo as int) * (lo as int) <= n as int,
            (n as int) < (hi as int) * (hi as int),
        decreases hi - lo,
    {
        let mid = lo + (hi - lo) / 2;
        proof {
            assert((mid as int) * (mid as int) < 340282366920938463463374607431768211455int)
                by (nonlinear_arith)
                requires
                    0 <= mid as int <= 18446744073709551615int,
            ;
        }
        if mid * mid <= n {
            lo = mid;
        } else {
            hi = mid;
        }
    }
    proof {
        lemma_sqrt_floor_unique(n as nat, lo as nat);
    }
    lo
}

/// Square root on the grid: represents `sqrt(x / FX_ONE)`, floored.
pub open spec fn fsqrt(x: int) -> int {
    sqrt_floor((x * FX_ONE) as nat) as int
}

/// The floored square root of anything below `2^80` fits in 40 bits.
pub proof fn lemma_sqrt_floor_small(n: nat)
    requires
        n < 0x100000000000000000000,
    ensures
        sqrt_floor(n) <= 0x10000000000,
{
    lemma_sqrt_floor(n);
    let s = sqrt_floor(n);
    if s > 0x10000000000 {
        assert(0x100000000000000000000nat <= s * s) by (nonlinear_arith)
            requires
                s >= 0x10000000000nat,
        ;
        assert(false);
    }
}

/// Fixed-point square root.
pub fn fx_sqrt(x: i64) -> (r: i64)
    requires
        0 <= x,
    ensures
        r == fsqrt(x as int),
        0 <= r <= 0x10000000000,
{
    let n: u128 = (x as u128) * 65536;
    let r = isqrt_u128(n);
    proof {
        lemma_sqrt_floor_small(n as nat);
    }
    r as i64
}

/// Dividing a negated nonnegative value: the quotient is the negated
/// quotient, lowered by at most one step, and never positive.
pub proof fn lemma_div_neg_num(x: int, d: int)
    requires
        0 <= x,
        0 < d,
    ensures
        -(x / d) - 1 <= (-x) / d <= -(x / d),
        (-x) / d <= 0,
{
    lemma_fundamental_div_mod(x, d);
    let q = x / d;
    let r = x % d;
    if r == 0 {
        assert(-x == (-q) * d + 0) by (nonlinear_arith)
            requires
                x == d * q + r,
                r == 0,
        ;
        lemma_fundamental_div_mod_converse(-x, d, -q, 0);
    } else {
        assert(-x == (-q - 1) * d + (d - r)) by (nonlinear_arith)
            requires
                x == d * q + r,
        ;
        lemma_fundamental_div_mod_converse(-x, d, -q - 1, d - r);
    }
    lemma_div_is_ordered(0, x, d);
}

/// A symmetric magnitude bound for the fixed-point product.
pub proof fn lemma_fmul_bound(a: int, b: int, ba: int, bb: int)
    requires
        -ba <= a <= ba,
        -bb <= b <= bb,
    ensures
        -((ba * bb) / (FX_ONE as int) + 1) <= fmul(a, b) <= (ba * bb) / (FX_ONE as int),
{
    assert(-(ba * bb) <= a * b <= ba * bb) by (nonlinear_arith)
        requires
            -ba <= a <= ba,
            -bb <= b <= bb,
    ;
    lemma_div_is_ordered(a * b, ba * bb, FX_ONE as int);
    lemma_div_is_ordered(-(ba * bb), a * b, FX_ONE as int);
    lemma_div_neg_num(ba * bb, FX_ONE as int);
}

/// A symmetric magnitude bound for the fixed-point quotient.
pub proof fn lemma_fdiv_bound(a: int, b: int, ba: int)
    requires
        -ba <= a <= ba,
        0 <= ba,
        b != 0,
    ensures
        -(ba * FX_ONE + 1) <= fdiv(a, b) <= ba * FX_ONE + 1,
{
    let s = FX_ONE as int;
    let d = if b >= 0 { b } else { -b };
    assert(-(ba * s) <= a * s <= ba * s) by (nonlinear_arith)
        requires
            -ba <= a <= ba,
            s == 65536,
    ;
    lemma_div_is_ordered(a * s, ba * s, d);
    lemma_div_is_ordered(-(ba * s), a * s, d);
    lemma_div_is_ordered_by_denominator(ba * s, 1, d);
    lemma_div_neg_num(ba * s, d);
    lemma_div_neg_num(ba * s, 1);
}

/// Whether a mathematical integer fits the machine scalar.
pub open spec fn fits_i64(x: int) -> bool {
    i64::MIN <= x <= i64::MAX
}

/// Any value whose square is at most `n` is at most the floored root.
pub proof fn lemma_sqrt_floor_lower(n: nat, r: nat)
    requires
        r * r <= n,
    ensures
        r <= sqrt_floor(n),
{
    lemma_sqrt_floor(n);
    let s = sqrt_floor(n);
    if s < r {
        assert((s + 1) * (s + 1) <= r * r) by (nonlinear_arith)
            requires
                s + 1 <= r,
        ;
        assert(false);
    }
}

/// A strict upper bound on the floored root from one on the square.
pub proof fn lemma_sqrt_floor_upper(n: nat, b: nat)
    requires
        n < b * b,
    ensures
        sqrt_floor(n) < b,
{
    lemma_sqrt_floor(n);
    let s = sqrt_floor(n);
    if s >= b {
        assert(b * b <= s * s) by (nonlinear_arith)
            requires
                b <= s,
        ;
        assert(false);
    }
}

/// A sharper quotient bound when the divisor has a known floor.
pub proof fn lemma_fdiv_bound_denominator(a: int, b: int, ba: int, lb: int)
    requires
        -ba <= a <= ba,
        0 <= ba,
        1 <= lb <= b,
    ensures
        -((ba * FX_ONE) / lb + 1) <= fdiv(a, b) <= (ba * FX_ONE) / lb,
{
    let s = FX_ONE as int;
    assert(-(ba * s) <= a * s <= ba * s) by (nonlinear_arith)
        requires
            -ba <= a <= ba,
            s == 65536,
    ;
    lemma_div_is_ordered(a * s, ba * s, b);
    lemma_div_is_ordered(-(ba * s), a * s, b);
    lemma_div_is_ordered_by_denominator(ba * s, lb, b);
    lemma_div_neg_num(ba * s, b);
    lemma_div_is_ordered_by_denominator(ba * s, lb, b);
    assert((ba * s) / b <= (ba * s) / lb);
    lemma_div_neg_num(ba * s, lb);
    assert(-((ba * s) / b) - 1 >= -((ba * s) / lb) - 1);
}

/// A symmetric bound carries through a floored division.
pub proof fn lemma_div_bound_by(x: int, b: int, d: int)
    requires
        -b <= x <= b,
        0 <= b,
        1 <= d,
    ensures
        -(b / d) - 1 <= x / d <= b / d,
{
    lemma_div_is_ordered(x, b, d);
    lemma_div_is_ordered(-b, x, d);
    lemma_div_neg_num(b, d);
}

/// A quotient of a numerator by a larger denominator stays in the unit range.
pub proof fn lemma_fdiv_ratio_unit(num: int, den: int)
    requires
        0 <= num <= den,
        1 <= den,
    ensures
        0 <= fdiv(num, den) <= FX_ONE,
{
    let s = FX_ONE as int;
    lemma_div_is_ordered(0, num * s, den);
    vstd::arithmetic::div_mod::lemma_div_of0(den);
    assert(num * s <= den * s) by (nonlinear_arith)
        requires
            num <= den,
            0 < s,
    ;
    lemma_div_is_ordered(num * s, den * s, den);
    vstd::arithmetic::div_mod::lemma_div_by_multiple(s, den);
    assert(den * s == s * den) by (nonlinear_arith);
}

/// A fixed-point quotient grows with its numerator, for positive divisors.
pub proof fn lemma_fdiv_mono_num(x: int, y: int, d: int)
    requires
        x <= y,
        1 <= d,
    ensures
        fdiv(x, d) <= fdiv(y, d),
{
    lemma_div_is_ordered(x * FX_ONE, y * FX_ONE, d);
}

/// The fixed-point product of nonnegative scalars is nonnegative.
pub proof fn lemma_fmul_nonneg(a: int, b: int)
    requires
        0 <= a,
        0 <= b,
    ensures
        0 <= fmul(a, b),
        fmul(a, b) * FX_ONE <= a * b,
{
    assert(0 <= a * b) by (nonlinear_arith)
        requires
            0 <= a,
            0 <= b,
    ;
    lemma_div_is_ordered(0, a * b, FX_ONE as int);
    lemma_fundamental_div_mod(a * b, FX_ONE as int);
}

} // verus!
