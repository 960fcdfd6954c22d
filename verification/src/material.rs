//! Surfaces: how a ray scatters, is absorbed, or is emitted at a hit point.
//!
//! The random draws a surface consumes are existentially quantified in the
//! contracts: every clause holds for whatever the generator produced, and the
//! deterministic part of each branch is pinned down exactly.

use crate::fixed::{fdiv, fmul, fsqrt, fx_div, fx_mul, fx_sqrt, FX_ONE};
use crate::hittable::HitRecord;
use crate::ray::Ray;
use crate::texture::{color_wf, tex_color, texture_wf, TexV, Texture};
use crate::vector::{
    bounded, vadd, vdot, vdot_exact, vlen2, vneg, vscale, vunit, Color, Point, Vector3,
    V3,
};
use crate::{dot, random, reflect_ray, refract_ray, sreflect, srefract};
use vstd::prelude::*;

verus! {

/// Mathematical model of a surface.
pub ghost enum SurfV {
    Diffuse { albedo: TexV },
    Reflective { albedo: V3, fuzz: int },
    Refractive { idx: int },
    DiffuseLight(TexV),
}

pub enum Surface {
    Diffuse { albedo: Texture },
    Reflective { albedo: Color, fuzz: i64 },
    Refractive { idx_of_refraction: i64 },
    DiffuseLight(Texture),
}

impl View for Surface {
    type V = SurfV;

    open spec fn view(&self) -> SurfV {
        match self {
            Surface::Diffuse { albedo } => SurfV::Diffuse { albedo: albedo@ },
            Surface::Reflective { albedo, fuzz } => SurfV::Reflective {
                albedo: albedo@,
                fuzz: *fuzz as int,
            },
            Surface::Refractive { idx_of_refraction } => SurfV::Refractive {
                idx: *idx_of_refraction as int,
            },
            Surface::DiffuseLight(t) => SurfV::DiffuseLight(t@),
        }
    }
}

pub open spec fn surface_wf(s: SurfV) -> bool {
    match s {
        SurfV::Diffuse { albedo } => texture_wf(albedo),
        SurfV::Reflective { albedo, fuzz } => color_wf(albedo) && 0 <= fuzz <= FX_ONE,
        SurfV::Refractive { idx } => 4096 <= idx <= 16 * FX_ONE,
        SurfV::DiffuseLight(t) => texture_wf(t),
    }
}

/// A vector drawn from the unit ball, as the sampling routine produces it.
pub open spec fn in_unit_ball(p: V3) -> bool {
    1 <= vlen2(p) < FX_ONE && bounded(p, FX_ONE as int)
}

/// The diffuse scatter direction: the normal plus a unit sample, with the
/// degenerate near-zero case falling back to the normal.
pub open spec fn diffuse_dir(normal: V3, us: V3) -> V3 {
    let d = vadd(normal, us);
    if d.x < 1 && d.y < 1 && d.z < 1 {
        normal
    } else {
        d
    }
}

/// What reflection off a fuzzed mirror does with a given unit sample: either
/// the perturbed reflection leaves the surface, or the ray is absorbed.
pub open spec fn reflective_outcome(
    albedo: V3,
    fuzz: int,
    dir: V3,
    normal: V3,
    p: V3,
    time: int,
    us: V3,
    r: Option<(Ray, Color)>,
) -> bool {
    let sd = vadd(sreflect(vunit(dir), normal), vscale(us, fuzz));
    if vdot(sd, normal) > 0 {
        match r {
            Some(pair) => pair.0.origin@ == p && pair.0.direction@ == sd && pair.0.time == time
                && pair.1@ == albedo,
            None => false,
        }
    } else {
        r is None
    }
}

/// Schlick's reflectance approximation on the grid.
pub open spec fn sreflectance(cosine: int, ref_idx: int) -> int {
    let r0 = fdiv(FX_ONE - ref_idx, FX_ONE + ref_idx);
    let r0sq = fmul(r0, r0);
    let omc = FX_ONE - cosine;
    let p5 = fmul(fmul(fmul(omc, omc), fmul(omc, omc)), omc);
    r0sq + fmul(FX_ONE - r0sq, p5)
}

/// The refraction ratio a dielectric uses at a front or back face.
pub open spec fn refraction_ratio(idx: int, front_face: bool) -> int {
    if front_face {
        fdiv(FX_ONE as int, idx)
    } else {
        idx
    }
}

/// What a dielectric does with a given coin draw: reflect on total internal
/// reflection or a winning Schlick draw, refract otherwise; the attenuation
/// is always white.
pub open spec fn refractive_outcome(
    idx: int,
    dir: V3,
    normal: V3,
    front_face: bool,
    p: V3,
    time: int,
    coin: int,
    r: Option<(Ray, Color)>,
) -> bool {
    let ratio = refraction_ratio(idx, front_face);
    let uv = vunit(dir);
    let c0 = vdot(vneg(uv), normal);
    let cos = if c0 > FX_ONE {
        FX_ONE as int
    } else {
        c0
    };
    let sin2 = FX_ONE - fmul(cos, cos);
    let sin = fsqrt(if sin2 < 0 {
        0
    } else {
        sin2
    });
    let cannot_refract = fmul(ratio, sin) > FX_ONE;
    let out_dir = if cannot_refract || sreflectance(cos, ratio) > coin {
        sreflect(uv, normal)
    } else {
        srefract(uv, normal, ratio)
    };
    match r {
        Some(pair) => pair.0.origin@ == p && pair.0.direction@ == out_dir && pair.0.time == time
            && pair.1@ == (V3 { x: FX_ONE as int, y: FX_ONE as int, z: FX_ONE as int }),
        None => false,
    }
}

/// The color a surface emits; only lights emit.
pub open spec fn emitted_color(s: SurfV, u: int, v: int, p: V3) -> V3 {
    match s {
        SurfV::DiffuseLight(t) => tex_color(t, u, v, p),
        _ => V3 { x: 0, y: 0, z: 0 },
    }
}

/// Everything the surface model allows a scatter call to return for a hit:
/// the deterministic shape of each branch, with the random draws
/// existentially quantified.
pub open spec fn scatter_outcome(
    m: SurfV,
    ray_in: Ray,
    rec: crate::hittable::SpecHit,
    r: Option<(Ray, Color)>,
) -> bool {
    match m {
        SurfV::Diffuse { albedo } => match r {
            Some(pair) => exists|us: V3|
                #[trigger] in_unit_ball(us) && pair.0.direction@ == diffuse_dir(
                    rec.normal,
                    vunit(us),
                ) && pair.0.origin@ == rec.p && pair.0.time == ray_in.time && pair.1@ == tex_color(
                    albedo,
                    rec.u,
                    rec.v,
                    rec.p,
                ),
            None => false,
        },
        SurfV::Reflective { albedo, fuzz } => {
            if vlen2(ray_in.direction@) >= 1 {
                exists|us: V3|
                    #[trigger] in_unit_ball(us) && reflective_outcome(
                        albedo,
                        fuzz,
                        ray_in.direction@,
                        rec.normal,
                        rec.p,
                        ray_in.time as int,
                        vunit(us),
                        r,
                    )
            } else {
                r is None
            }
        },
        SurfV::Refractive { idx } => {
            if vlen2(ray_in.direction@) >= 1 {
                exists|coin: int|
                    #[trigger] coin_range(coin) && refractive_outcome(
                        idx,
                        ray_in.direction@,
                        rec.normal,
                        rec.front_face,
                        rec.p,
                        ray_in.time as int,
                        coin,
                        r,
                    )
            } else {
                r is None
            }
        },
        SurfV::DiffuseLight(_) => r is None,
    }
}

impl Surface {
    pub open spec fn wf(&self) -> bool {
        surface_wf(self@)
    }

    /// How the surface responds to a hit.  Diffuse surfaces always scatter
    /// with the texture's color; mirrors keep their albedo exactly and
    /// absorb rays that end up under the surface; dielectrics always scatter
    /// with white attenuation; lights absorb.  Mirrors and dielectrics also
    /// absorb an incoming ray too short to normalize on the grid, as no
    /// meaningful direction can be read off it.
    pub fn scatter(&self, rng: &mut rand::rngs::StdRng, ray_in: &Ray, rec: &HitRecord) -> (r:
        Option<(Ray, Color)>)
        requires
            surface_wf(self@),
            bounded(rec.normal@, 3 * FX_ONE),
            bounded(rec.p@, 0x4000000),
            bounded(ray_in.direction@, 0x8000000),
        ensures
            scatter_outcome(self@, *ray_in, rec@, r),
            match r {
                Some(pair) => {
                    &&& pair.0.origin == rec.p
                    &&& pair.0.time == ray_in.time
                    &&& bounded(pair.0.direction@, 0x80000000)
                    &&& color_wf(pair.1@)
                },
                None => true,
            },
    {
        match self {
            Surface::Diffuse { albedo } => {
                let us = Vector3::random_unit_vector(rng);
                let d = rec.normal.add(&us);
                let scatter_direction = if d.near_zero() {
                    rec.normal
                } else {
                    d
                };
                let scattered = Ray::new(rec.p, scatter_direction, ray_in.time);
                let att = albedo.color(rec.u, rec.v, &rec.p);
                proof {
                    let p0 = choose|p0: V3|
                        1 <= vlen2(p0) < FX_ONE && bounded(p0, FX_ONE as int) && us@ == vunit(p0);
                    assert(in_unit_ball(p0));
                    assert(scattered.direction@ == diffuse_dir(rec.normal@, vunit(p0)));
                }
                Some((scattered, att))
            },
            Surface::Reflective { albedo, fuzz } => {
                proof {
                    crate::vector::lemma_dot_fits(
                        ray_in.direction@,
                        ray_in.direction@,
                        0x8000000,
                        0x8000000,
                    );
                    crate::vector::lemma_vlen2_nonneg(ray_in.direction@);
                }
                let ls = ray_in.direction.length_squared();
                if ls < 1 {
                    return None;
                }
                proof {
                    Vector3::lemma_vunit_bounded(ray_in.direction@);
                }
                let unit_dir = ray_in.direction.unit();
                let reflected = reflect_ray(&unit_dir, &rec.normal);
                let us = Vector3::random_unit_vector(rng);
                proof {
                    crate::fixed::lemma_fmul_bound(us@.x, *fuzz as int, 196608, 65536);
                    crate::fixed::lemma_fmul_bound(us@.y, *fuzz as int, 196608, 65536);
                    crate::fixed::lemma_fmul_bound(us@.z, *fuzz as int, 196608, 65536);
                }
                let fuzzed = us.scale(*fuzz);
                let sd = reflected.add(&fuzzed);
                let scattered = Ray::new(rec.p, sd, ray_in.time);
                proof {
                    crate::vector::lemma_dot_fits(sd@, rec.normal@, 33161220, 196608);
                }
                let keep = dot(&scattered.direction, &rec.normal) > 0;
                proof {
                    let p0 = choose|p0: V3|
                        1 <= vlen2(p0) < FX_ONE && bounded(p0, FX_ONE as int) && us@ == vunit(p0);
                    assert(in_unit_ball(p0));
                    assert(reflective_outcome(
                        albedo@,
                        *fuzz as int,
                        ray_in.direction@,
                        rec.normal@,
                        rec.p@,
                        ray_in.time as int,
                        vunit(p0),
                        if keep {
                            Some((scattered, *albedo))
                        } else {
                            None
                        },
                    ));
                }
                if keep {
                    Some((scattered, *albedo))
                } else {
                    None
                }
            },
            Surface::Refractive { idx_of_refraction } => {
                proof {
                    crate::vector::lemma_dot_fits(
                        ray_in.direction@,
                        ray_in.direction@,
                        0x8000000,
                        0x8000000,
                    );
                    crate::vector::lemma_vlen2_nonneg(ray_in.direction@);
                }
                let ls = ray_in.direction.length_squared();
                if ls < 1 {
                    return None;
                }
                proof {
                    Vector3::lemma_vunit_bounded(ray_in.direction@);
                    crate::fixed::lemma_fdiv_bound_denominator(
                        FX_ONE as int,
                        *idx_of_refraction as int,
                        65536,
                        4096,
                    );
                    vstd::arithmetic::div_mod::lemma_div_is_ordered_by_denominator(
                        4294967296,
                        *idx_of_refraction as int,
                        1048576,
                    );
                    assert(4294967296int / 1048576int == 4096) by (nonlinear_arith);
                }
                let refraction_ratio = if rec.front_face {
                    fx_div(FX_ONE, *idx_of_refraction)
                } else {
                    *idx_of_refraction
                };
                let unit_direction = ray_in.direction.unit();
                proof {
                    crate::vector::lemma_dot_fits(vneg(unit_direction@), rec.normal@, 196608, 196608);
                }
                let minus_unit = unit_direction.neg();
                let c0 = dot(&minus_unit, &rec.normal);
                let cos_theta = if c0 > FX_ONE {
                    FX_ONE
                } else {
                    c0
                };
                proof {
                    crate::fixed::lemma_fmul_bound(cos_theta as int, cos_theta as int, 1769475, 1769475);
                }
                let sin2 = FX_ONE - fx_mul(cos_theta, cos_theta);
                let sin_theta = fx_sqrt(
                    if sin2 < 0 {
                        0
                    } else {
                        sin2
                    },
                );
                proof {
                    crate::fixed::lemma_sqrt_floor_upper(
                        ((if FX_ONE - fmul(cos_theta as int, cos_theta as int) < 0 {
                            0
                        } else {
                            FX_ONE - fmul(cos_theta as int, cos_theta as int)
                        }) * 65536) as nat,
                        2000000,
                    );
                    crate::fixed::lemma_fmul_bound(
                        refraction_ratio as int,
                        sin_theta as int,
                        1048576,
                        2000000,
                    );
                }
                let cannot_refract = fx_mul(refraction_ratio, sin_theta) > FX_ONE;
                let mut coin: i64 = 0;
                let reflect_now = if cannot_refract {
                    true
                } else {
                    coin = random(rng);
                    let refl = reflectance(cos_theta, refraction_ratio);
                    refl > coin
                };
                let direction = if reflect_now {
                    reflect_ray(&unit_direction, &rec.normal)
                } else {
                    refract_ray(&unit_direction, &rec.normal, refraction_ratio)
                };
                let scattered = Ray::new(rec.p, direction, ray_in.time);
                let white = Vector3::from_one(FX_ONE);
                proof {
                    assert(coin_range(coin as int));
                    assert(refractive_outcome(
                        *idx_of_refraction as int,
                        ray_in.direction@,
                        rec.normal@,
                        rec.front_face,
                        rec.p@,
                        ray_in.time as int,
                        coin as int,
                        Some((scattered, white)),
                    ));
                }
                Some((scattered, white))
            },
            Surface::DiffuseLight(_) => None,
        }
    }

    /// The emitted color: the light's texture, black for everything else.
    pub fn emitted(&self, u: i64, v: i64, point: &Point) -> (r: Color)
        requires
            surface_wf(self@),
            bounded(point@, 0x10000000),
        ensures
            r@ == emitted_color(self@, u as int, v as int, point@),
            color_wf(r@),
    {
        match self {
            Surface::DiffuseLight(emit) => emit.color(u, v, point),
            _ => Vector3::zero(),
        }
    }
}

impl Clone for Surface {
    /// A clone responds to hits exactly as the original.
    fn clone(&self) -> (r: Self)
        ensures
            r@ == self@,
    {
        match self {
            Surface::Diffuse { albedo } => Surface::Diffuse { albedo: albedo.clone() },
            Surface::Reflective { albedo, fuzz } => Surface::Reflective {
                albedo: *albedo,
                fuzz: *fuzz,
            },
            Surface::Refractive { idx_of_refraction } => Surface::Refractive {
                idx_of_refraction: *idx_of_refraction,
            },
            Surface::DiffuseLight(t) => Surface::DiffuseLight(t.clone()),
        }
    }
}

impl Default for Surface {
    /// The default surface: diffuse, solid black.
    fn default() -> (r: Self)
        ensures
            r@ == (SurfV::Diffuse { albedo: TexV::Solid(V3 { x: 0, y: 0, z: 0 }) }),
            surface_wf(r@),
    {
        Surface::Diffuse { albedo: Texture::SolidColor(Vector3::zero()) }
    }
}

/// With no fuzz, the mirror keeps nothing back: whatever unit sample was
/// drawn, the perturbation vanishes, so a scattered ray travels exactly
/// along the reflection of the unit incoming direction with the albedo
/// unchanged, and the ray is scattered precisely when that reflection
/// leaves the surface.
pub proof fn lemma_mirror_no_fuzz(
    albedo: V3,
    dir: V3,
    normal: V3,
    p: V3,
    time: int,
    us: V3,
    r: Option<(Ray, Color)>,
)
    requires
        reflective_outcome(albedo, 0, dir, normal, p, time, us, r),
    ensures
        ({
            let sd = sreflect(vunit(dir), normal);
            if vdot(sd, normal) > 0 {
                r matches Some(pair) && pair.0.direction@ == sd && pair.1@ == albedo
                    && pair.0.origin@ == p && pair.0.time == time
            } else {
                r is None
            }
        }),
{
    vstd::arithmetic::div_mod::lemma_div_of0(FX_ONE as int);
    assert(vscale(us, 0) == (V3 { x: 0, y: 0, z: 0 }));
    assert(vadd(sreflect(vunit(dir), normal), vscale(us, 0)) == sreflect(vunit(dir), normal));
}

/// The mirror law: for any incoming direction and any normal, the exact
/// reflection (scaled through the normal's squared length so that no
/// division is needed) points against the normal exactly as strongly as the
/// incoming direction pointed along it.  In particular, for a nonzero
/// normal the scattered direction satisfies `scattered . normal > 0` if and
/// only if the incoming ray arrives from outside (`incoming . normal < 0`).
pub proof fn lemma_reflect_side(d: V3, n: V3)
    ensures
        vdot_exact(
            crate::vector::vsub(
                crate::vector::vscale_exact(d, vdot_exact(n, n)),
                crate::vector::vscale_exact(n, 2 * vdot_exact(d, n)),
            ),
            n,
        ) == -(vdot_exact(d, n) * vdot_exact(n, n)),
        vdot_exact(n, n) > 0 ==> (vdot_exact(
            crate::vector::vsub(
                crate::vector::vscale_exact(d, vdot_exact(n, n)),
                crate::vector::vscale_exact(n, 2 * vdot_exact(d, n)),
            ),
            n,
        ) > 0 <==> vdot_exact(d, n) < 0),
{
    let nn = vdot_exact(n, n);
    let dn = vdot_exact(d, n);
    assert((d.x * nn - n.x * (2 * dn)) * n.x == (d.x * n.x) * nn - 2 * (dn * (n.x * n.x)))
        by (nonlinear_arith);
    assert((d.y * nn - n.y * (2 * dn)) * n.y == (d.y * n.y) * nn - 2 * (dn * (n.y * n.y)))
        by (nonlinear_arith);
    assert((d.z * nn - n.z * (2 * dn)) * n.z == (d.z * n.z) * nn - 2 * (dn * (n.z * n.z)))
        by (nonlinear_arith);
    assert((d.x * n.x) * nn + (d.y * n.y) * nn + (d.z * n.z) * nn == dn * nn) by (nonlinear_arith)
        requires
            dn == d.x * n.x + d.y * n.y + d.z * n.z,
    ;
    assert(dn * (n.x * n.x) + dn * (n.y * n.y) + dn * (n.z * n.z) == dn * nn) by (nonlinear_arith)
        requires
            nn == n.x * n.x + n.y * n.y + n.z * n.z,
    ;
    if nn > 0 {
        assert(-(dn * nn) > 0 <==> dn < 0) by (nonlinear_arith)
            requires
                nn > 0,
        ;
    }
}

/// Snell's law for the perpendicular component: for any incoming direction
/// and normal, with `c` the incoming cosine, the refracted perpendicular
/// component `c * n + uv` has exact squared length
/// `c^2 (n.n - 2) + uv.uv`; for a unit normal this is `sin^2` of the
/// incidence angle, so scaling by the refraction ratio carries the sine of
/// the incident angle to the sine of the refracted one, exactly as Snell's
/// law states.
pub proof fn lemma_refract_snell(uv: V3, n: V3)
    ensures
        ({
            let c = -vdot_exact(uv, n);
            let perp = vadd(crate::vector::vscale_exact(n, c), uv);
            vdot_exact(perp, perp) == (c * c) * (vdot_exact(n, n) - 2) + vdot_exact(uv, uv)
        }),
{
    let c = -vdot_exact(uv, n);
    let nn = vdot_exact(n, n);
    assert((n.x * c + uv.x) * (n.x * c + uv.x) == (n.x * n.x) * (c * c) + 2 * (c * (n.x * uv.x))
        + uv.x * uv.x) by (nonlinear_arith);
    assert((n.y * c + uv.y) * (n.y * c + uv.y) == (n.y * n.y) * (c * c) + 2 * (c * (n.y * uv.y))
        + uv.y * uv.y) by (nonlinear_arith);
    assert((n.z * c + uv.z) * (n.z * c + uv.z) == (n.z * n.z) * (c * c) + 2 * (c * (n.z * uv.z))
        + uv.z * uv.z) by (nonlinear_arith);
    assert(c * (n.x * uv.x) + c * (n.y * uv.y) + c * (n.z * uv.z) == -(c * c))
        by (nonlinear_arith)
        requires
            c == -(uv.x * n.x + uv.y * n.y + uv.z * n.z),
    ;
    assert((n.x * n.x) * (c * c) + (n.y * n.y) * (c * c) + (n.z * n.z) * (c * c) == nn * (c * c))
        by (nonlinear_arith)
        requires
            nn == n.x * n.x + n.y * n.y + n.z * n.z,
    ;
    assert((c * c) * (nn - 2) == nn * (c * c) - 2 * (c * c)) by (nonlinear_arith);
}

/// A coin draw from the unit range.
pub open spec fn coin_range(c: int) -> bool {
    0 <= c <= FX_ONE
}

/// Schlick's reflectance approximation, exactly `sreflectance`.
fn reflectance(cosine: i64, ref_idx: i64) -> (r: i64)
    requires
        -0x200000 <= cosine <= FX_ONE,
        0 < ref_idx <= 16 * FX_ONE,
    ensures
        r == sreflectance(cosine as int, ref_idx as int),
{
    proof {
        crate::fixed::lemma_fdiv_bound_denominator(
            FX_ONE - ref_idx,
            FX_ONE + ref_idx,
            1048576,
            65537,
        );
    }
    let r0 = fx_div(FX_ONE - ref_idx, FX_ONE + ref_idx);
    proof {
        crate::fixed::lemma_fmul_bound(r0 as int, r0 as int, 1048577, 1048577);
    }
    let r0sq = fx_mul(r0, r0);
    let omc = FX_ONE - cosine;
    proof {
        crate::fixed::lemma_fmul_bound(omc as int, omc as int, 2162688, 2162688);
        crate::fixed::lemma_fmul_bound(
            fmul(omc as int, omc as int),
            fmul(omc as int, omc as int),
            71368705,
            71368705,
        );
        crate::fixed::lemma_fmul_bound(
            fmul(fmul(omc as int, omc as int), fmul(omc as int, omc as int)),
            omc as int,
            77720520835,
            2162688,
        );
    }
    let omc2 = fx_mul(omc, omc);
    let omc4 = fx_mul(omc2, omc2);
    let p5 = fx_mul(omc4, omc);
    proof {
        crate::fixed::lemma_fmul_bound(
            FX_ONE - r0sq as int,
            p5 as int,
            16842785,
            2564777187556,
        );
    }
    r0sq + fx_mul(FX_ONE - r0sq, p5)
}

} // verus!
