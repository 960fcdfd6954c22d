//! Gradient noise: three shuffled lattice permutation tables, fixed after
//! construction, evaluated by blending the eight corner gradients of the
//! cell around a point with Hermite-smoothed trilinear weights.

use crate::fixed::{
    abs_i64, div_floor, fmul, fx_mul, iabs, lemma_fmul_bound, lemma_fmul_nonneg, mod_floor, FX_ONE,
};
use crate::vector::{bounded, Point, V3};
use crate::{grad, sgrad};
use vstd::pervasive::VecAdditionalExecFns;
use vstd::prelude::*;

verus! {

/// Mathematical model of the generator: its permutation tables.
pub ghost struct PerlinV {
    pub px: Seq<i64>,
    pub py: Seq<i64>,
    pub pz: Seq<i64>,
}

#[derive(Debug)]
pub struct Perlin {
    pub point_count: usize,
    pub perm_x: Vec<i64>,
    pub perm_y: Vec<i64>,
    pub perm_z: Vec<i64>,
}

impl View for Perlin {
    type V = PerlinV;

    open spec fn view(&self) -> PerlinV {
        PerlinV { px: self.perm_x@, py: self.perm_y@, pz: self.perm_z@ }
    }
}

/// A lattice table: 256 entries, each a byte-sized index.
pub open spec fn table_wf(s: Seq<i64>) -> bool {
    &&& s.len() == 256
    &&& forall|i: int| 0 <= i < 256 ==> 0 <= #[trigger] s[i] < 256
}

/// A table that holds each of the 256 indices exactly once.
pub open spec fn is_permutation(s: Seq<i64>) -> bool {
    s.to_multiset() == Seq::new(256, |i: int| i as i64).to_multiset()
}

pub open spec fn perlin_wf(v: PerlinV) -> bool {
    table_wf(v.px) && table_wf(v.py) && table_wf(v.pz)
}

/// Hermite fade of a fractional offset.
pub open spec fn fade(u: int) -> int {
    fmul(fmul(u, u), 3 * FX_ONE - 2 * u)
}

/// The faded weight stays within the unit range.
pub proof fn lemma_fade_bounds(u: int)
    requires
        0 <= u < FX_ONE,
    ensures
        0 <= fade(u) < FX_ONE,
{
    let s = FX_ONE as int;
    let uu = fmul(u, u);
    lemma_fmul_nonneg(u, u);
    lemma_fmul_nonneg(uu, 3 * s - 2 * u);
    assert(u * u * (3 * s - 2 * u) <= s * s * s - s) by (nonlinear_arith)
        requires
            0 <= u <= s - 1,
            s == 65536,
    ;
    assert(uu * (3 * s - 2 * u) <= s * s - 1) by (nonlinear_arith)
        requires
            uu * s <= u * u,
            u * u * (3 * s - 2 * u) <= s * s * s - s,
            0 <= uu,
            0 <= 3 * s - 2 * u,
            s == 65536,
    ;
    assert(fade(u) <= s - 1) by (nonlinear_arith)
        requires
            fade(u) * s <= uu * (3 * s - 2 * u),
            uu * (3 * s - 2 * u) <= s * s - 1,
            s == 65536,
    ;
}

/// The hash of one lattice corner: the tables XOR-combined.
pub open spec fn lattice_hash(v: PerlinV, i: int, j: int, k: int) -> i64 {
    (v.px[i % 256] ^ v.py[j % 256]) ^ v.pz[k % 256]
}

/// The gradient contribution of one corner of the cell.
pub open spec fn corner_grad(
    v: PerlinV,
    i: int,
    j: int,
    k: int,
    fu: int,
    fv: int,
    fw: int,
    di: int,
    dj: int,
    dk: int,
) -> int {
    sgrad(
        lattice_hash(v, i + di, j + dj, k + dk),
        fu - di * FX_ONE,
        fv - dj * FX_ONE,
        fw - dk * FX_ONE,
    )
}

/// Hermite weight for one axis of a corner.
pub open spec fn corner_weight(f: int, d: int) -> int {
    if d == 1 {
        f
    } else {
        FX_ONE - f
    }
}

/// The blended contribution of one corner.
pub open spec fn corner_term(
    v: PerlinV,
    i: int,
    j: int,
    k: int,
    fu: int,
    fv: int,
    fw: int,
    di: int,
    dj: int,
    dk: int,
) -> int {
    fmul(
        fmul(fmul(corner_weight(fade(fu), di), corner_weight(fade(fv), dj)), corner_weight(fade(fw), dk)),
        corner_grad(v, i, j, k, fu, fv, fw, di, dj, dk),
    )
}

/// The noise value at a point: the eight corner terms summed.
pub open spec fn noise_at(v: PerlinV, p: V3) -> int {
    let i = p.x / 65536;
    let j = p.y / 65536;
    let k = p.z / 65536;
    let fu = p.x % 65536;
    let fv = p.y % 65536;
    let fw = p.z % 65536;
    corner_term(v, i, j, k, fu, fv, fw, 0, 0, 0) + corner_term(v, i, j, k, fu, fv, fw, 0, 0, 1)
        + corner_term(v, i, j, k, fu, fv, fw, 0, 1, 0) + corner_term(
        v,
        i,
        j,
        k,
        fu,
        fv,
        fw,
        0,
        1,
        1,
    ) + corner_term(v, i, j, k, fu, fv, fw, 1, 0, 0) + corner_term(
        v,
        i,
        j,
        k,
        fu,
        fv,
        fw,
        1,
        0,
        1,
    ) + corner_term(v, i, j, k, fu, fv, fw, 1, 1, 0) + corner_term(v, i, j, k, fu, fv, fw, 1, 1, 1)
}

/// Multi-octave turbulence: absolute noise at doubling frequencies with
/// halving weights.
pub open spec fn turb_at(v: PerlinV, p: V3, depth: nat, weight: int) -> int
    decreases depth,
{
    if depth == 0 {
        0
    } else {
        fmul(weight, iabs(noise_at(v, p))) + turb_at(
            v,
            V3 { x: 2 * p.x, y: 2 * p.y, z: 2 * p.z },
            (depth - 1) as nat,
            weight / 2,
        )
    }
}

impl Perlin {
    pub open spec fn wf(&self) -> bool {
        self.point_count == 256 && perlin_wf(self@)
    }

    /// Builds the three tables by Fisher-Yates shuffles of `0..255`.
    pub fn new(rng: &mut rand::rngs::StdRng) -> (r: Self)
        ensures
            r.wf(),
            is_permutation(r@.px),
            is_permutation(r@.py),
            is_permutation(r@.pz),
    {
        let point_count: usize = 256;
        let perm_x = Self::perlin_generate_perm(rng, point_count);
        let perm_y = Self::perlin_generate_perm(rng, point_count);
        let perm_z = Self::perlin_generate_perm(rng, point_count);
        Self { point_count, perm_x, perm_y, perm_z }
    }

    /// The identity table `0..point_count`, shuffled: it keeps exactly one
    /// copy of each index.
    fn perlin_generate_perm(rng: &mut rand::rngs::StdRng, point_count: usize) -> (r: Vec<i64>)
        requires
            point_count == 256,
        ensures
            table_wf(r@),
            is_permutation(r@),
    {
        let mut p: Vec<i64> = Vec::new();
        let mut i: usize = 0;
        while i < point_count
            invariant
                point_count == 256,
                i <= 256,
                p@.len() == i,
                forall|k: int| 0 <= k < i ==> #[trigger] p@[k] == k,
            decreases 256 - i,
        {
            p.push(i as i64);
            i = i + 1;
        }
        proof {
            assert(p@ =~= Seq::new(256, |k: int| k as i64));
        }
        Self::permute(rng, &mut p, point_count);
        p
    }

    /// Fisher-Yates: swaps each slot down from the top with a random earlier
    /// one; the table keeps exactly the values it started with.
    fn permute(rng: &mut rand::rngs::StdRng, p: &mut Vec<i64>, n: usize)
        requires
            old(p)@.len() == n,
            n <= 256,
            forall|k: int| 0 <= k < n ==> 0 <= #[trigger] old(p)@[k] < 256,
        ensures
            final(p)@.len() == n,
            final(p)@.to_multiset() == old(p)@.to_multiset(),
            forall|k: int| 0 <= k < n ==> 0 <= #[trigger] final(p)@[k] < 256,
    {
        let ghost orig = p@;
        let mut i: usize = n;
        while i > 0
            invariant
                p@.len() == n,
                i <= n <= 256,
                p@.to_multiset() == orig.to_multiset(),
                forall|k: int| 0 <= k < n ==> 0 <= #[trigger] p@[k] < 256,
            decreases i,
        {
            i = i - 1;
            let target = crate::random_int_rng(rng, 0, i as i32) as usize;
            let ghost before = p@;
            let tmp = p[i];
            let other = p[target];
            p.set(i, other);
            p.set(target, tmp);
            proof {
                broadcast use vstd::seq_lib::to_multiset_update;
                broadcast use vstd::seq_lib::group_to_multiset_ensures;

                let mid = before.update(i as int, other);
                let fin = mid.update(target as int, tmp);
                if target == i {
                    assert(fin =~= before);
                } else {
                    assert(mid.to_multiset() == before.to_multiset().insert(other).remove(
                        before[i as int],
                    ));
                    assert(mid[target as int] == other);
                    assert(fin.to_multiset() == mid.to_multiset().insert(tmp).remove(other));
                    assert(fin.to_multiset() =~= before.to_multiset());
                }
            }
        }
    }

    /// The noise value at a point: exactly `noise_at` on the model.
    pub fn noise(&self, p: &Point) -> (r: i64)
        requires
            perlin_wf(self@),
            bounded(p@, 0x100000000000),
        ensures
            r == noise_at(self@, p@),
            -24 * FX_ONE <= r <= 24 * FX_ONE,
    {
        let i = crate::fixed::fx_floor(p.x);
        let j = crate::fixed::fx_floor(p.y);
        let k = crate::fixed::fx_floor(p.z);
        let fu = crate::fixed::fx_fract(p.x);
        let fv = crate::fixed::fx_fract(p.y);
        let fw = crate::fixed::fx_fract(p.z);
        let u = Self::fade_fx(fu);
        let v = Self::fade_fx(fv);
        let w = Self::fade_fx(fw);
        let c000 = self.corner(i, j, k, fu, fv, fw, u, v, w, 0, 0, 0);
        let c001 = self.corner(i, j, k, fu, fv, fw, u, v, w, 0, 0, 1);
        let c010 = self.corner(i, j, k, fu, fv, fw, u, v, w, 0, 1, 0);
        let c011 = self.corner(i, j, k, fu, fv, fw, u, v, w, 0, 1, 1);
        let c100 = self.corner(i, j, k, fu, fv, fw, u, v, w, 1, 0, 0);
        let c101 = self.corner(i, j, k, fu, fv, fw, u, v, w, 1, 0, 1);
        let c110 = self.corner(i, j, k, fu, fv, fw, u, v, w, 1, 1, 0);
        let c111 = self.corner(i, j, k, fu, fv, fw, u, v, w, 1, 1, 1);
        c000 + c001 + c010 + c011 + c100 + c101 + c110 + c111
    }

    /// The Hermite fade, on the grid.
    fn fade_fx(u: i64) -> (r: i64)
        requires
            0 <= u < FX_ONE,
        ensures
            r == fade(u as int),
            0 <= r < FX_ONE,
    {
        proof {
            lemma_fade_bounds(u as int);
            lemma_fmul_bound(u as int, u as int, 65536, 65536);
            lemma_fmul_nonneg(u as int, u as int);
            lemma_fmul_bound(fmul(u as int, u as int), 3 * FX_ONE - 2 * u, 65537, 196608);
        }
        fx_mul(fx_mul(u, u), 3 * FX_ONE - 2 * u)
    }

    /// One corner's weighted gradient contribution.
    fn corner(
        &self,
        i: i64,
        j: i64,
        k: i64,
        fu: i64,
        fv: i64,
        fw: i64,
        u: i64,
        v: i64,
        w: i64,
        di: i64,
        dj: i64,
        dk: i64,
    ) -> (r: i64)
        requires
            perlin_wf(self@),
            -0x10000000000 <= i <= 0x10000000000,
            -0x10000000000 <= j <= 0x10000000000,
            -0x10000000000 <= k <= 0x10000000000,
            0 <= fu < FX_ONE,
            0 <= fv < FX_ONE,
            0 <= fw < FX_ONE,
            u == fade(fu as int),
            v == fade(fv as int),
            w == fade(fw as int),
            0 <= u < FX_ONE,
            0 <= v < FX_ONE,
            0 <= w < FX_ONE,
            di == 0 || di == 1,
            dj == 0 || dj == 1,
            dk == 0 || dk == 1,
        ensures
            r == corner_term(
                self@,
                i as int,
                j as int,
                k as int,
                fu as int,
                fv as int,
                fw as int,
                di as int,
                dj as int,
                dk as int,
            ),
            -3 * FX_ONE <= r <= 3 * FX_ONE,
    {
        let ix = mod_floor(i + di, 256) as usize;
        let jx = mod_floor(j + dj, 256) as usize;
        let kx = mod_floor(k + dk, 256) as usize;
        let hash = (self.perm_x[ix] ^ self.perm_y[jx]) ^ self.perm_z[kx];
        let g = grad(hash, fu - di * FX_ONE, fv - dj * FX_ONE, fw - dk * FX_ONE);
        proof {
            assert(-131072 <= sgrad(
                hash,
                fu - di * FX_ONE,
                fv - dj * FX_ONE,
                fw - dk * FX_ONE,
            ) <= 131072) by {
                assert(-65536 <= fu - di * FX_ONE <= 65536);
                assert(-65536 <= fv - dj * FX_ONE <= 65536);
                assert(-65536 <= fw - dk * FX_ONE <= 65536);
            };
        }
        let wx = if di == 1 {
            u
        } else {
            FX_ONE - u
        };
        let wy = if dj == 1 {
            v
        } else {
            FX_ONE - v
        };
        let wz = if dk == 1 {
            w
        } else {
            FX_ONE - w
        };
        proof {
            lemma_fmul_bound(wx as int, wy as int, 65536, 65536);
            lemma_fmul_nonneg(wx as int, wy as int);
            lemma_fmul_bound(fmul(wx as int, wy as int), wz as int, 65537, 65536);
            lemma_fmul_nonneg(fmul(wx as int, wy as int), wz as int);
            lemma_fmul_bound(fmul(fmul(wx as int, wy as int), wz as int), g as int, 65538, 131073);
        }
        fx_mul(fx_mul(fx_mul(wx, wy), wz), g)
    }

    /// Turbulence: `depth` octaves of absolute noise.
    #[verifier::rlimit(60)]
    pub fn turbulence(&self, p: &Point, depth: u32) -> (r: i64)
        requires
            perlin_wf(self@),
            bounded(p@, 0x10000000),
            depth <= 16,
        ensures
            r == turb_at(self@, p@, depth as nat, FX_ONE as int),
            0 <= r <= 0x2000000,
    {
        let mut accum: i64 = 0;
        let mut temp_p: Point = *p;
        let mut weight: i64 = FX_ONE;
        let mut oct: u32 = 0;
        proof {
            vstd::arithmetic::power2::lemma2_to64();
        }
        while oct < depth
            invariant
                perlin_wf(self@),
                oct <= depth <= 16,
                0 <= weight <= FX_ONE,
                bounded(temp_p@, 0x10000000 * (vstd::arithmetic::power2::pow2(oct as nat) as int)),
                0 <= accum <= oct * 1572865,
                accum + turb_at(self@, temp_p@, (depth - oct) as nat, weight as int) == turb_at(
                    self@,
                    p@,
                    depth as nat,
                    FX_ONE as int,
                ),
            decreases depth - oct,
        {
            proof {
                vstd::arithmetic::power2::lemma_pow2_pos(oct as nat);
                lemma_pow2_le_16(oct as nat);
            }
            let n = self.noise(&temp_p);
            let a = abs_i64(n);
            proof {
                lemma_fmul_bound(weight as int, a as int, 65536, 1572864);
                lemma_fmul_nonneg(weight as int, a as int);
            }
            accum = accum + fx_mul(weight, a);
            weight = div_floor(weight, 2);
            proof {
                vstd::arithmetic::power2::lemma_pow2_unfold((oct + 1) as nat);
            }
            temp_p = temp_p.add(&temp_p);
            oct = oct + 1;
        }
        accum
    }
}

/// Powers of two up to sixteen stay small.
proof fn lemma_pow2_le_16(n: nat)
    requires
        n <= 16,
    ensures
        vstd::arithmetic::power2::pow2(n) <= 65536,
{
    vstd::arithmetic::power2::lemma2_to64();
    if n < 16 {
        vstd::arithmetic::power2::lemma_pow2_strictly_increases(n, 16);
    }
}

impl Clone for Perlin {
    /// A clone carries the same tables.
    fn clone(&self) -> (r: Self)
        ensures
            r@ == self@,
            r.point_count == self.point_count,
    {
        Self {
            point_count: self.point_count,
            perm_x: clone_table(&self.perm_x),
            perm_y: clone_table(&self.perm_y),
            perm_z: clone_table(&self.perm_z),
        }
    }
}

/// An element-by-element copy of a table.
fn clone_table(v: &Vec<i64>) -> (r: Vec<i64>)
    ensures
        r@ == v@,
{
    let mut r: Vec<i64> = Vec::new();
    let mut i: usize = 0;
    while i < v.len()
        invariant
            i <= v@.len(),
            r@ == v@.subrange(0, i as int),
        decreases v@.len() - i,
    {
        r.push(v[i]);
        i = i + 1;
    }
    proof {
        assert(r@ =~= v@);
    }
    r
}

} // verus!
