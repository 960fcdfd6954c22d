//! The camera: derives a view basis and viewport geometry from the render
//! parameters, generates jittered, defocused, time-sampled rays, traces
//! their color through the scene, and reduces samples to tone-mapped
//! pixels.

use crate::fixed::{div_floor, fdiv, fmul, fx_div, fx_mul, FX_ONE};
use crate::hittable::HittableList;
use crate::interval::Interval;
use crate::ray::Ray;
use crate::shape::{in_range, seq_wf};
use crate::texture::color_wf;
use crate::trig::{stan, sto_radians};
use crate::vector::{
    bounded, vadd, vcross, vdivs, vlen2, vneg, vscale, vsub, vunit, Color, Point, Vector3,
    V3,
};
use vstd::prelude::*;

verus! {

/// Mathematical model of the derived render configuration.
pub ghost struct CamV {
    pub image_height: int,
    pub center: V3,
    pub pixel00_loc: V3,
    pub pixel_delta_u: V3,
    pub pixel_delta_v: V3,
    pub defocus_disk_u: V3,
    pub defocus_disk_v: V3,
}

/// The image height the camera derives from width and aspect ratio.
pub open spec fn camera_height(image_width: int, aspect_ratio: int) -> int {
    fdiv(image_width * 65536, aspect_ratio) / 65536
}

/// The whole camera derivation: view basis, viewport edges, pixel steps,
/// first pixel location and defocus disk.
pub open spec fn derive_camera(
    aspect_ratio: int,
    image_width: int,
    fov: int,
    look_from: V3,
    look_at: V3,
    view_up: V3,
    defocus_angle: int,
    focus_dist: int,
) -> CamV {
    let image_height = camera_height(image_width, aspect_ratio);
    let look_direction = vsub(look_from, look_at);
    let theta = sto_radians(fov);
    let h = stan(theta / 2);
    let viewport_height = fmul(2 * h, focus_dist);
    let viewport_width = fmul(viewport_height, aspect_ratio);
    let w = vunit(look_direction);
    let u = vunit(vcross(view_up, w));
    let v = vcross(w, u);
    let viewport_u = vscale(u, viewport_width);
    let viewport_v = vscale(vneg(v), viewport_height);
    let pixel_delta_u = vdivs(viewport_u, image_width * 65536);
    let pixel_delta_v = vdivs(viewport_v, image_height * 65536);
    let viewport_upper_left = vsub(
        vsub(vsub(look_from, vscale(w, focus_dist)), vdivs(viewport_u, 131072)),
        vdivs(viewport_v, 131072),
    );
    let pixel00_loc = vadd(
        viewport_upper_left,
        vscale(vadd(pixel_delta_u, pixel_delta_v), 32768),
    );
    let defocus_radius = fmul(focus_dist, stan(sto_radians(defocus_angle) / 2));
    CamV {
        image_height,
        center: look_from,
        pixel00_loc,
        pixel_delta_u,
        pixel_delta_v,
        defocus_disk_u: vscale(u, defocus_radius),
        defocus_disk_v: vscale(v, defocus_radius),
    }
}

/// The componentwise sum of a sequence of colors, accumulated left to
/// right as the sampling loop does.
pub open spec fn color_sum(cs: Seq<V3>) -> V3
    decreases cs.len(),
{
    if cs.len() == 0 {
        V3 { x: 0, y: 0, z: 0 }
    } else {
        vadd(color_sum(cs.drop_last()), cs.last())
    }
}

/// A ray whose origin and direction lie within the world box, so the hit
/// scan can take it.
pub open spec fn traceable(ray: Ray) -> bool {
    bounded(ray.origin@, 0x10000000) && bounded(ray.direction@, 0x1000000)
}

pub struct Camera {
    pub image_width: u32,
    pub image_height: u32,
    pub samples_per_pixel: u32,
    pub max_depth: u32,
    pub center: Point,
    pub pixel00_loc: Point,
    pub pixel_delta_u: Vector3,
    pub pixel_delta_v: Vector3,
    pub defocus_angle: i64,
    pub defocus_disk_u: Vector3,
    pub defocus_disk_v: Vector3,
    pub background: Color,
}

impl Camera {
    pub open spec fn wf(&self) -> bool {
        &&& 1 <= self.image_width <= 4096
        &&& 1 <= self.image_height <= 4096
        &&& 1 <= self.samples_per_pixel <= 65536
        &&& 1 <= self.max_depth <= 64
        &&& bounded(self.center@, 0x4000000)
        &&& bounded(self.pixel00_loc@, 0x10000000000)
        &&& bounded(self.pixel_delta_u@, 0x8000000000)
        &&& bounded(self.pixel_delta_v@, 0x8000000000)
        &&& bounded(self.defocus_disk_u@, 0x800000000)
        &&& bounded(self.defocus_disk_v@, 0x800000000)
        &&& color_wf(self.background@)
    }

    /// Derives the render configuration, exactly `derive_camera`.
    pub fn new(
        aspect_ratio: i64,
        image_width: u32,
        samples_per_pixel: u32,
        max_depth: u32,
        fov: i64,
        look_from: Point,
        look_at: Point,
        view_up: Vector3,
        defocus_angle: i64,
        focus_dist: i64,
        background: Color,
    ) -> (r: Camera)
        requires
            16384 <= aspect_ratio <= 4194304,
            1 <= image_width <= 4096,
            1 <= samples_per_pixel <= 65536,
            1 <= max_depth <= 64,
            0 < fov <= 0x40000000,
            in_range(look_from@),
            in_range(look_at@),
            bounded(view_up@, 0x4000000),
            1 <= vlen2(vsub(look_from@, look_at@)),
            1 <= vlen2(vcross(view_up@, vunit(vsub(look_from@, look_at@)))),
            0 <= defocus_angle <= 0x40000000,
            1 <= focus_dist <= 0x1000000,
            color_wf(background@),
            1 <= camera_height(image_width as int, aspect_ratio as int) <= 4096,
        ensures
            r.wf(),
            ({
                let cam = derive_camera(
                    aspect_ratio as int,
                    image_width as int,
                    fov as int,
                    look_from@,
                    look_at@,
                    view_up@,
                    defocus_angle as int,
                    focus_dist as int,
                );
                &&& r.image_width == image_width
                &&& r.image_height == cam.image_height
                &&& r.samples_per_pixel == samples_per_pixel
                &&& r.max_depth == max_depth
                &&& r.center@ == cam.center
                &&& r.pixel00_loc@ == cam.pixel00_loc
                &&& r.pixel_delta_u@ == cam.pixel_delta_u
                &&& r.pixel_delta_v@ == cam.pixel_delta_v
                &&& r.defocus_angle == defocus_angle
                &&& r.defocus_disk_u@ == cam.defocus_disk_u
                &&& r.defocus_disk_v@ == cam.defocus_disk_v
                &&& r.background == background
            }),
    {
        let w_fx: i64 = (image_width as i64) * 65536;
        proof {
            crate::fixed::lemma_fdiv_bound_denominator(w_fx as int, aspect_ratio as int, 0x10000000, 16384);
            crate::fixed::lemma_div_bound_by(fdiv(w_fx as int, aspect_ratio as int), 0x100000000000, 65536);
        }
        let height_fx = fx_div(w_fx, aspect_ratio);
        let image_height_i = div_floor(height_fx, 65536);
        let image_height: u32 = image_height_i as u32;

        let look_direction = look_from.sub(&look_at);
        let theta = crate::trig::to_radians(fov);
        let h = crate::trig::tan_fx(div_floor(theta, 2));
        proof {
            crate::fixed::lemma_fmul_bound(2 * h as int, focus_dist as int, 8388608, 0x1000000);
        }
        let viewport_height = fx_mul(2 * h, focus_dist);
        proof {
            crate::fixed::lemma_fmul_bound(
                viewport_height as int,
                aspect_ratio as int,
                0x80000001,
                4194304,
            );
        }
        let viewport_width = fx_mul(viewport_height, aspect_ratio);

        proof {
            crate::vector::lemma_dot_fits(
                vsub(look_from@, look_at@),
                vsub(look_from@, look_at@),
                0x8000000,
                0x8000000,
            );
        }
        let w = look_direction.unit();
        proof {
            Vector3::lemma_vunit_bounded(vsub(look_from@, look_at@));
            crate::vector::lemma_cross_fits(view_up@, w@, 0x4000000, 196608);
            crate::vector::lemma_dot_fits(
                vcross(view_up@, w@),
                vcross(view_up@, w@),
                402653186,
                402653186,
            );
        }
        let u = view_up.cross(&w).unit();
        proof {
            Vector3::lemma_vunit_bounded(vcross(view_up@, w@));
            crate::vector::lemma_cross_fits(w@, u@, 196608, 196608);
        }
        let v = w.cross(&u);

        proof {
            crate::fixed::lemma_fmul_bound(u@.x, viewport_width as int, 196608, 137438953794);
            crate::fixed::lemma_fmul_bound(u@.y, viewport_width as int, 196608, 137438953794);
            crate::fixed::lemma_fmul_bound(u@.z, viewport_width as int, 196608, 137438953794);
        }
        let viewport_u = u.scale(viewport_width);
        proof {
            crate::fixed::lemma_fmul_bound(
                vneg(v@).x,
                viewport_height as int,
                1179650,
                0x80000001,
            );
            crate::fixed::lemma_fmul_bound(
                vneg(v@).y,
                viewport_height as int,
                1179650,
                0x80000001,
            );
            crate::fixed::lemma_fmul_bound(
                vneg(v@).z,
                viewport_height as int,
                1179650,
                0x80000001,
            );
        }
        let viewport_v = v.neg().scale(viewport_height);

        proof {
            crate::fixed::lemma_fdiv_bound_denominator(viewport_u@.x, w_fx as int, 412316861383, 65536);
            crate::fixed::lemma_fdiv_bound_denominator(viewport_u@.y, w_fx as int, 412316861383, 65536);
            crate::fixed::lemma_fdiv_bound_denominator(viewport_u@.z, w_fx as int, 412316861383, 65536);
        }
        let pixel_delta_u = viewport_u.div(w_fx);
        let h_fx: i64 = (image_height as i64) * 65536;
        proof {
            crate::fixed::lemma_fdiv_bound_denominator(viewport_v@.x, h_fx as int, 38654771219, 65536);
            crate::fixed::lemma_fdiv_bound_denominator(viewport_v@.y, h_fx as int, 38654771219, 65536);
            crate::fixed::lemma_fdiv_bound_denominator(viewport_v@.z, h_fx as int, 38654771219, 65536);
        }
        let pixel_delta_v = viewport_v.div(h_fx);

        proof {
            crate::fixed::lemma_fmul_bound(w@.x, focus_dist as int, 196608, 0x1000000);
            crate::fixed::lemma_fmul_bound(w@.y, focus_dist as int, 196608, 0x1000000);
            crate::fixed::lemma_fmul_bound(w@.z, focus_dist as int, 196608, 0x1000000);
            crate::fixed::lemma_fdiv_bound_denominator(viewport_u@.x, 131072, 412316861383, 131072);
            crate::fixed::lemma_fdiv_bound_denominator(viewport_u@.y, 131072, 412316861383, 131072);
            crate::fixed::lemma_fdiv_bound_denominator(viewport_u@.z, 131072, 412316861383, 131072);
            crate::fixed::lemma_fdiv_bound_denominator(viewport_v@.x, 131072, 38654771219, 131072);
            crate::fixed::lemma_fdiv_bound_denominator(viewport_v@.y, 131072, 38654771219, 131072);
            crate::fixed::lemma_fdiv_bound_denominator(viewport_v@.z, 131072, 38654771219, 131072);
        }
        let viewport_upper_left = look_from.sub(&w.scale(focus_dist)).sub(
            &viewport_u.div(131072),
        ).sub(&viewport_v.div(131072));
        proof {
            let pd = vadd(
                vdivs(viewport_u@, w_fx as int),
                vdivs(viewport_v@, h_fx as int),
            );
            crate::fixed::lemma_fmul_bound(pd.x, 32768, 549755813888, 32768);
            crate::fixed::lemma_fmul_bound(pd.y, 32768, 549755813888, 32768);
            crate::fixed::lemma_fmul_bound(pd.z, 32768, 549755813888, 32768);
        }
        let pixel00_loc = viewport_upper_left.add(&pixel_delta_u.add(&pixel_delta_v).scale(32768));

        let defocus_tan = crate::trig::tan_fx(div_floor(crate::trig::to_radians(defocus_angle), 2));
        proof {
            crate::fixed::lemma_fmul_bound(focus_dist as int, defocus_tan as int, 0x1000000, 4194304);
            let dr = fmul(focus_dist as int, stan(sto_radians(defocus_angle as int) / 2));
            crate::fixed::lemma_fmul_bound(u@.x, dr, 196608, 0x40000001);
            crate::fixed::lemma_fmul_bound(u@.y, dr, 196608, 0x40000001);
            crate::fixed::lemma_fmul_bound(u@.z, dr, 196608, 0x40000001);
            crate::fixed::lemma_fmul_bound(v@.x, dr, 1179650, 0x40000001);
            crate::fixed::lemma_fmul_bound(v@.y, dr, 1179650, 0x40000001);
            crate::fixed::lemma_fmul_bound(v@.z, dr, 1179650, 0x40000001);
        }
        let defocus_radius = fx_mul(focus_dist, defocus_tan);
        let defocus_disk_u = u.scale(defocus_radius);
        let defocus_disk_v = v.scale(defocus_radius);

        Camera {
            image_width,
            image_height,
            samples_per_pixel,
            max_depth,
            center: look_from,
            pixel00_loc,
            pixel_delta_u,
            pixel_delta_v,
            defocus_angle,
            defocus_disk_u,
            defocus_disk_v,
            background,
        }
    }

    /// The ray a given pixel and set of draws produces.
    pub open spec fn ray_for(&self, u: int, v: int, px: int, py: int, tm: int, dp: V3) -> Ray {
        let pixel_center = vadd(
            vadd(self.pixel00_loc@, vscale(self.pixel_delta_u@, u * 65536)),
            vscale(self.pixel_delta_v@, v * 65536),
        );
        let pixel_sample = vadd(
            pixel_center,
            vadd(vscale(self.pixel_delta_u@, px), vscale(self.pixel_delta_v@, py)),
        );
        let origin = if self.defocus_angle <= 0 {
            self.center@
        } else {
            vadd(
                self.center@,
                vadd(vscale(self.defocus_disk_u@, dp.x), vscale(self.defocus_disk_v@, dp.y)),
            )
        };
        Ray {
            origin: Vector3 { x: origin.x as i64, y: origin.y as i64, z: origin.z as i64 },
            direction: Vector3 {
                x: (pixel_sample.x - origin.x) as i64,
                y: (pixel_sample.y - origin.y) as i64,
                z: (pixel_sample.z - origin.z) as i64,
            },
            time: tm as i64,
        }
    }

    /// A jittered, defocused, time-stamped ray through pixel `(u, v)`: the
    /// result is `ray_for` at some admissible draws.
    #[verifier::rlimit(100)]
    pub fn get_ray(&self, u: u32, v: u32, rng: &mut rand::rngs::StdRng) -> (r: Ray)
        requires
            self.wf(),
            u <= 4096,
            v <= 4096,
        ensures
            exists|px: int, py: int, tm: int, dp: V3|
                #![auto]
                -32768 <= px <= 32768 && -32768 <= py <= 32768 && 0 <= tm < 65536 && vlen2(dp)
                    < FX_ONE && bounded(dp, FX_ONE as int) && dp.z == 0 && r == self.ray_for(
                    u as int,
                    v as int,
                    px,
                    py,
                    tm,
                    dp,
                ),
            bounded(r.origin@, 0x10000000000),
            bounded(r.direction@, 0x40000000000000),
            0 <= r.time < FX_ONE,
    {
        let u_fx: i64 = (u as i64) * 65536;
        let v_fx: i64 = (v as i64) * 65536;
        proof {
            crate::fixed::lemma_fmul_bound(self.pixel_delta_u@.x, u_fx as int, 0x8000000000, 0x10000000);
            crate::fixed::lemma_fmul_bound(self.pixel_delta_u@.y, u_fx as int, 0x8000000000, 0x10000000);
            crate::fixed::lemma_fmul_bound(self.pixel_delta_u@.z, u_fx as int, 0x8000000000, 0x10000000);
            crate::fixed::lemma_fmul_bound(self.pixel_delta_v@.x, v_fx as int, 0x8000000000, 0x10000000);
            crate::fixed::lemma_fmul_bound(self.pixel_delta_v@.y, v_fx as int, 0x8000000000, 0x10000000);
            crate::fixed::lemma_fmul_bound(self.pixel_delta_v@.z, v_fx as int, 0x8000000000, 0x10000000);
        }
        let pixel_center = self.pixel00_loc.add(&self.pixel_delta_u.scale(u_fx)).add(
            &self.pixel_delta_v.scale(v_fx),
        );
        let px = crate::random(rng) - 32768;
        let py = crate::random(rng) - 32768;
        proof {
            crate::fixed::lemma_fmul_bound(self.pixel_delta_u@.x, px as int, 0x8000000000, 32768);
            crate::fixed::lemma_fmul_bound(self.pixel_delta_u@.y, px as int, 0x8000000000, 32768);
            crate::fixed::lemma_fmul_bound(self.pixel_delta_u@.z, px as int, 0x8000000000, 32768);
            crate::fixed::lemma_fmul_bound(self.pixel_delta_v@.x, py as int, 0x8000000000, 32768);
            crate::fixed::lemma_fmul_bound(self.pixel_delta_v@.y, py as int, 0x8000000000, 32768);
            crate::fixed::lemma_fmul_bound(self.pixel_delta_v@.z, py as int, 0x8000000000, 32768);
        }
        let pixel_sample = pixel_center.add(
            &self.pixel_delta_u.scale(px).add(&self.pixel_delta_v.scale(py)),
        );
        let dp: Vector3;
        let ray_origin = if self.defocus_angle <= 0 {
            dp = Vector3::new(0, 0, 0);
            proof {
                assert(vlen2(dp@) == 0) by {
                    assert(fmul(0, 0) == 0);
                };
            }
            self.center
        } else {
            let p = Vector3::random_in_unit_disk(rng);
            dp = p;
            proof {
                crate::fixed::lemma_fmul_bound(self.defocus_disk_u@.x, p@.x, 0x800000000, 65536);
                crate::fixed::lemma_fmul_bound(self.defocus_disk_u@.y, p@.x, 0x800000000, 65536);
                crate::fixed::lemma_fmul_bound(self.defocus_disk_u@.z, p@.x, 0x800000000, 65536);
                crate::fixed::lemma_fmul_bound(self.defocus_disk_v@.x, p@.y, 0x800000000, 65536);
                crate::fixed::lemma_fmul_bound(self.defocus_disk_v@.y, p@.y, 0x800000000, 65536);
                crate::fixed::lemma_fmul_bound(self.defocus_disk_v@.z, p@.y, 0x800000000, 65536);
            }
            self.center.add(&self.defocus_disk_u.scale(p.x).add(&self.defocus_disk_v.scale(p.y)))
        };
        let ray_direction = pixel_sample.sub(&ray_origin);
        let ray_time = crate::random_rng(rng, 0, FX_ONE - 1);
        let r = Ray::new(ray_origin, ray_direction, ray_time);
        proof {
            assert(r == self.ray_for(
                u as int,
                v as int,
                px as int,
                py as int,
                ray_time as int,
                dp@,
            ));
        }
        r
    }

    /// Everything the bounce loop can turn the state `(acc, prod)` into
    /// within `depth` more bounces: the exhausted, escaped, missed, guarded
    /// and absorbed endings are each pinned exactly, and a scatter step
    /// folds its surface's admissible responses into the accumulator just
    /// as the loop does, with the draws existentially quantified.
    pub open spec fn trace_from(
        &self,
        objects: Seq<crate::shape::Element>,
        ray: Ray,
        depth: int,
        acc: V3,
        prod: V3,
        c: V3,
    ) -> bool
        decreases depth,
    {
        if depth <= 0 {
            c == acc
        } else if !traceable(ray) {
            c == vadd(acc, crate::vector::vmul(prod, self.background@))
        } else {
            match crate::shape::seq_hit(
                objects,
                ray.origin@,
                ray.direction@,
                ray.time as int,
                65,
                0x40000000,
            ) {
                None => c == vadd(acc, crate::vector::vmul(prod, self.background@)),
                Some(h) => if !(bounded(h.p, 0x4000000) && bounded(h.normal, 196608)) {
                    c == acc
                } else {
                    let acc2 = vadd(
                        acc,
                        crate::vector::vmul(
                            prod,
                            crate::material::emitted_color(h.material, h.u, h.v, h.p),
                        ),
                    );
                    (crate::material::scatter_outcome(h.material, ray, h, None) && c == acc2)
                        || exists|sray: Ray, att: Color|
                        #![auto]
                        crate::material::scatter_outcome(h.material, ray, h, Some((sray, att)))
                            && self.trace_from(
                            objects,
                            sray,
                            depth - 1,
                            acc2,
                            crate::vector::vmul(prod, att@),
                            c,
                        )
                },
            }
        }
    }

    /// A complete trace from a fresh ray: the loop started on black
    /// accumulation and full white attenuation.
    pub open spec fn trace_outcome(
        &self,
        objects: Seq<crate::shape::Element>,
        ray: Ray,
        depth: int,
        c: V3,
    ) -> bool {
        self.trace_from(
            objects,
            ray,
            depth,
            V3 { x: 0, y: 0, z: 0 },
            V3 { x: 65536, y: 65536, z: 65536 },
            c,
        )
    }

    /// One traced sample for pixel `(u, v)`: some admissible draws produce
    /// a ray through that pixel whose trace can end with this color.
    pub open spec fn sample_outcome(
        &self,
        objects: Seq<crate::shape::Element>,
        u: int,
        v: int,
        c: V3,
    ) -> bool {
        exists|px: int, py: int, tm: int, dp: V3|
            #![auto]
            -32768 <= px <= 32768 && -32768 <= py <= 32768 && 0 <= tm < 65536 && vlen2(dp)
                < FX_ONE && bounded(dp, FX_ONE as int) && dp.z == 0 && self.trace_outcome(
                objects,
                self.ray_for(u, v, px, py, tm, dp),
                self.max_depth as int,
                c,
            )
    }

    /// One output pixel: the tone map, channel by channel, of the sum of a
    /// full set of samples, each a trace outcome of the pixel's own rays.
    pub open spec fn pixel_outcome(
        &self,
        objects: Seq<crate::shape::Element>,
        k: int,
        px8: (u8, u8, u8),
    ) -> bool {
        exists|cs: Seq<V3>|
            #![auto]
            cs.len() == self.samples_per_pixel && (forall|j: int|
                0 <= j < cs.len() ==> self.sample_outcome(
                    objects,
                    k % (self.image_width as int),
                    k / (self.image_width as int),
                    #[trigger] cs[j],
                )) && px8.0 == Vector3::tone_channel(
                color_sum(cs).x,
                self.samples_per_pixel as int,
            ) && px8.1 == Vector3::tone_channel(color_sum(cs).y, self.samples_per_pixel as int)
                && px8.2 == Vector3::tone_channel(color_sum(cs).z, self.samples_per_pixel as int)
    }

    /// Traces the color carried back along a ray: an iterative bounce loop
    /// with a running attenuation product and emission accumulator.  Rays
    /// that escape the scene pick up the background color; exhausted paths
    /// and absorbed rays end with what they have gathered.  The result is
    /// one of the admissible path outcomes of the ray, and every channel
    /// lies in `[0, (max_depth + 1)]` in units of the grid.
    pub fn ray_color(
        &self,
        rng: &mut rand::rngs::StdRng,
        ray: &Ray,
        world: &HittableList,
        depth: u32,
    ) -> (r: Color)
        requires
            self.wf(),
            seq_wf(world.objects@),
            depth <= 64,
            0 <= ray.time <= FX_ONE,
        ensures
            0 <= r@.x <= (depth + 1) * 65536,
            0 <= r@.y <= (depth + 1) * 65536,
            0 <= r@.z <= (depth + 1) * 65536,
            depth == 0 ==> r@ == (V3 { x: 0, y: 0, z: 0 }),
            depth > 0 && traceable(*ray) ==> match crate::shape::seq_hit(
                world.objects@,
                ray.origin@,
                ray.direction@,
                ray.time as int,
                65,
                0x40000000,
            ) {
                None => r@ == self.background@,
                Some(h) => (h.material is DiffuseLight && bounded(h.p, 0x4000000) && bounded(
                    h.normal,
                    196608,
                )) ==> r@ == crate::material::emitted_color(h.material, h.u, h.v, h.p),
            },
            self.trace_outcome(world.objects@, *ray, depth as int, r@),
    {
        let mut acc = Vector3::black();
        let mut prod = Vector3::white();
        let mut cur: Ray = *ray;
        let mut d: u32 = depth;
        let ghost mut stepped: bool = false;
        loop
            invariant
                self.wf(),
                seq_wf(world.objects@),
                d <= depth <= 64,
                0 <= acc@.x <= (depth - d) * 65536,
                0 <= acc@.y <= (depth - d) * 65536,
                0 <= acc@.z <= (depth - d) * 65536,
                0 <= prod@.x <= 65536,
                0 <= prod@.y <= 65536,
                0 <= prod@.z <= 65536,
                0 <= cur.time <= FX_ONE,
                !stepped ==> d == depth && acc@ == (V3 { x: 0, y: 0, z: 0 }) && prod@ == (V3 {
                    x: 65536,
                    y: 65536,
                    z: 65536,
                }) && cur == *ray,
                stepped ==> depth > 0 && traceable(*ray) && match crate::shape::seq_hit(
                    world.objects@,
                    ray.origin@,
                    ray.direction@,
                    ray.time as int,
                    65,
                    0x40000000,
                ) {
                    Some(h) => !(h.material is DiffuseLight),
                    None => false,
                },
                forall|c: V3|
                    #[trigger] self.trace_from(world.objects@, cur, d as int, acc@, prod@, c)
                        ==> self.trace_outcome(world.objects@, *ray, depth as int, c),
            decreases d,
        {
            let ghost cur0 = cur;
            let ghost d0 = d as int;
            let ghost acc0 = acc@;
            let ghost prod0 = prod@;
            if d == 0 {
                proof {
                    assert(self.trace_from(world.objects@, cur0, d0, acc0, prod0, acc@));
                }
                return acc;
            }
            if !(-0x10000000 <= cur.origin.x && cur.origin.x <= 0x10000000 && -0x10000000
                <= cur.origin.y && cur.origin.y <= 0x10000000 && -0x10000000 <= cur.origin.z
                && cur.origin.z <= 0x10000000 && -0x1000000 <= cur.direction.x && cur.direction.x
                <= 0x1000000 && -0x1000000 <= cur.direction.y && cur.direction.y <= 0x1000000
                && -0x1000000 <= cur.direction.z && cur.direction.z <= 0x1000000) {
                // a ray that has left the world box escapes to the background
                proof {
                    lemma_color_mix_bounds(acc@, prod@, self.background@, depth as int, d as int);
                }
                let out = acc.add(&prod.mul(&self.background));
                proof {
                    assert(self.trace_from(world.objects@, cur0, d0, acc0, prod0, out@));
                }
                return out;
            }
            let hit = world.hit(&cur, &Interval::new(65, 0x40000000));
            match hit {
                None => {
                    proof {
                        lemma_color_mix_bounds(acc@, prod@, self.background@, depth as int, d as int);
                        lemma_white_product(self.background@);
                    }
                    let out = acc.add(&prod.mul(&self.background));
                    proof {
                        assert(self.trace_from(world.objects@, cur0, d0, acc0, prod0, out@));
                    }
                    return out;
                },
                Some(rec) => {
                    proof {
                        crate::shape::lemma_seq_hit_material_wf(
                            world.objects@,
                            cur.origin@,
                            cur.direction@,
                            cur.time as int,
                            65,
                            0x40000000,
                        );
                    }
                    if !(-0x4000000 <= rec.p.x && rec.p.x <= 0x4000000 && -0x4000000 <= rec.p.y
                        && rec.p.y <= 0x4000000 && -0x4000000 <= rec.p.z && rec.p.z <= 0x4000000
                        && -196608 <= rec.normal.x && rec.normal.x <= 196608 && -196608
                        <= rec.normal.y && rec.normal.y <= 196608 && -196608 <= rec.normal.z
                        && rec.normal.z <= 196608) {
                        // a hit outside the world box or with a degenerate
                        // normal ends the path with what it gathered
                        proof {
                            assert(self.trace_from(world.objects@, cur0, d0, acc0, prod0, acc@));
                        }
                        return acc;
                    }
                    let emitted = rec.material.emitted(rec.u, rec.v, &rec.p);
                    proof {
                        lemma_color_mix_bounds(acc@, prod@, emitted@, depth as int, d as int);
                        lemma_white_product(emitted@);
                    }
                    acc = acc.add(&prod.mul(&emitted));
                    let scattered = rec.material.scatter(rng, &cur, &rec);
                    match scattered {
                        None => {
                            proof {
                                assert(self.trace_from(
                                    world.objects@,
                                    cur0,
                                    d0,
                                    acc0,
                                    prod0,
                                    acc@,
                                ));
                            }
                            return acc;
                        },
                        Some(pair) => {
                            proof {
                                lemma_color_prod_bounds(prod@, pair.1@);
                                stepped = true;
                            }
                            prod = prod.mul(&pair.1);
                            cur = pair.0;
                            d = d - 1;
                            proof {
                                assert forall|c: V3|
                                    #[trigger] self.trace_from(
                                        world.objects@,
                                        cur,
                                        d as int,
                                        acc@,
                                        prod@,
                                        c,
                                    ) implies self.trace_outcome(
                                    world.objects@,
                                    *ray,
                                    depth as int,
                                    c,
                                ) by {
                                    assert(crate::material::scatter_outcome(
                                        rec@.material,
                                        cur0,
                                        rec@,
                                        Some((pair.0, pair.1)),
                                    ) && self.trace_from(
                                        world.objects@,
                                        pair.0,
                                        d0 - 1,
                                        acc@,
                                        crate::vector::vmul(prod0, pair.1@),
                                        c,
                                    ));
                                    assert(self.trace_from(
                                        world.objects@,
                                        cur0,
                                        d0,
                                        acc0,
                                        prod0,
                                        c,
                                    ));
                                };
                            }
                        },
                    }
                },
            }
        }
    }

    /// Renders the scene: one tone-mapped pixel per image position, in
    /// row-major order, with the generator reseeded per pixel from the
    /// given seed.  Every output pixel is the tone map of the sum of its
    /// own samples, each of which is an admissible trace outcome of a ray
    /// through that pixel.
    pub fn render(&self, world: &HittableList, seed: u64) -> (r: Vec<(u8, u8, u8)>)
        requires
            self.wf(),
            seq_wf(world.objects@),
        ensures
            r@.len() == self.image_height * self.image_width,
            forall|k: int| 0 <= k < r@.len() ==> self.pixel_outcome(world.objects@, k, #[trigger] r@[k]),
    {
        proof {
            assert(self.image_height * self.image_width <= 0x1000000) by (nonlinear_arith)
                requires
                    1 <= self.image_height <= 4096,
                    1 <= self.image_width <= 4096,
            ;
        }
        let coords = pixel_grid(self.image_height, self.image_width);
        let mut pixels: Vec<(u8, u8, u8)> = Vec::new();
        let mut i: usize = 0;
        while i < coords.len()
            invariant
                self.wf(),
                seq_wf(world.objects@),
                coords@.len() == self.image_height * self.image_width,
                forall|k: int|
                    0 <= k < coords@.len() ==> #[trigger] coords@[k] == ((
                    (k / (self.image_width as int)) as u32,
                    (k % (self.image_width as int)) as u32,
                )),
                i <= coords@.len(),
                pixels@.len() == i,
                forall|k: int|
                    0 <= k < i ==> self.pixel_outcome(world.objects@, k, #[trigger] pixels@[k]),
            decreases coords@.len() - i,
        {
            let rc = coords[i];
            proof {
                assert(0 <= i as int % (self.image_width as int) < self.image_width as int) by {
                    vstd::arithmetic::div_mod::lemma_mod_bound(
                        i as int,
                        self.image_width as int,
                    );
                };
                assert((self.image_height as int) * (self.image_width as int) == (
                self.image_width as int) * (self.image_height as int)) by (nonlinear_arith);
                assert(i as int / (self.image_width as int) < self.image_height as int) by {
                    vstd::arithmetic::div_mod::lemma_multiply_divide_lt(
                        i as int,
                        self.image_width as int,
                        self.image_height as int,
                    );
                };
                vstd::arithmetic::div_mod::lemma_div_is_ordered(
                    0,
                    i as int,
                    self.image_width as int,
                );
            }
            let v = rc.0;
            let u = rc.1;
            let mut rng = crate::rng::rng_from_seed(seed.wrapping_add(i as u64));
            let mut sum = Vector3::black();
            let mut sidx: u32 = 0;
            let ghost mut samples: Seq<V3> = Seq::empty();
            while sidx < self.samples_per_pixel
                invariant
                    self.wf(),
                    seq_wf(world.objects@),
                    u < self.image_width,
                    v < self.image_height,
                    sidx <= self.samples_per_pixel,
                    0 <= sum@.x <= sidx * ((self.max_depth + 1) * 65536),
                    0 <= sum@.y <= sidx * ((self.max_depth + 1) * 65536),
                    0 <= sum@.z <= sidx * ((self.max_depth + 1) * 65536),
                    samples.len() == sidx,
                    sum@ == color_sum(samples),
                    forall|j: int|
                        0 <= j < samples.len() ==> self.sample_outcome(
                            world.objects@,
                            u as int,
                            v as int,
                            #[trigger] samples[j],
                        ),
                decreases self.samples_per_pixel - sidx,
            {
                let ray = self.get_ray(u, v, &mut rng);
                let c = self.ray_color(&mut rng, &ray, world, self.max_depth);
                proof {
                    assert(sidx * ((self.max_depth + 1) * 65536) + (self.max_depth + 1) * 65536
                        <= (sidx + 1) * ((self.max_depth + 1) * 65536)) by (nonlinear_arith);
                    assert((sidx + 1) * ((self.max_depth + 1) * 65536) <= 65536 * (65 * 65536))
                        by (nonlinear_arith)
                        requires
                            0 <= sidx + 1 <= 65536,
                            1 <= self.max_depth <= 64,
                    ;
                }
                proof {
                    let (gpx, gpy, gtm, gdp) = choose|gpx: int, gpy: int, gtm: int, gdp: V3|
                        #![auto]
                        -32768 <= gpx <= 32768 && -32768 <= gpy <= 32768 && 0 <= gtm < 65536
                            && vlen2(gdp) < FX_ONE && bounded(gdp, FX_ONE as int) && gdp.z == 0
                            && ray == self.ray_for(u as int, v as int, gpx, gpy, gtm, gdp);
                    assert(self.sample_outcome(world.objects@, u as int, v as int, c@));
                    let samples0 = samples;
                    samples = samples.push(c@);
                    assert(samples.drop_last() =~= samples0);
                    assert(samples.last() == c@);
                    assert(color_sum(samples) == vadd(color_sum(samples0), c@));
                }
                sum = sum.add(&c);
                sidx = sidx + 1;
            }
            let px = sum.to_pixel(self.samples_per_pixel);
            proof {
                assert(self.pixel_outcome(world.objects@, i as int, px)) by {
                    assert(u as int == (i as int) % (self.image_width as int));
                    assert(v as int == (i as int) / (self.image_width as int));
                    assert(samples.len() == self.samples_per_pixel && (forall|j: int|
                        0 <= j < samples.len() ==> self.sample_outcome(
                            world.objects@,
                            (i as int) % (self.image_width as int),
                            (i as int) / (self.image_width as int),
                            #[trigger] samples[j],
                        )) && px.0 == Vector3::tone_channel(
                        color_sum(samples).x,
                        self.samples_per_pixel as int,
                    ) && px.1 == Vector3::tone_channel(
                        color_sum(samples).y,
                        self.samples_per_pixel as int,
                    ) && px.2 == Vector3::tone_channel(
                        color_sum(samples).z,
                        self.samples_per_pixel as int,
                    ));
                };
            }
            pixels.push(px);
            i = i + 1;
        }
        pixels
    }
}

/// Attenuating full white by a color keeps the color exactly.
proof fn lemma_white_product(c: V3)
    ensures
        fmul(65536, c.x) == c.x,
        fmul(65536, c.y) == c.y,
        fmul(65536, c.z) == c.z,
{
    vstd::arithmetic::div_mod::lemma_div_multiples_vanish(c.x, 65536);
    vstd::arithmetic::div_mod::lemma_div_multiples_vanish(c.y, 65536);
    vstd::arithmetic::div_mod::lemma_div_multiples_vanish(c.z, 65536);
}

/// Attenuating a unit-range product by a unit-range color keeps it there.
proof fn lemma_color_prod_bounds(prod: V3, c: V3)
    requires
        0 <= prod.x <= 65536,
        0 <= prod.y <= 65536,
        0 <= prod.z <= 65536,
        0 <= c.x <= 65536,
        0 <= c.y <= 65536,
        0 <= c.z <= 65536,
    ensures
        0 <= fmul(prod.x, c.x) <= 65536,
        0 <= fmul(prod.y, c.y) <= 65536,
        0 <= fmul(prod.z, c.z) <= 65536,
{
    crate::fixed::lemma_fmul_nonneg(prod.x, c.x);
    crate::fixed::lemma_fmul_nonneg(prod.y, c.y);
    crate::fixed::lemma_fmul_nonneg(prod.z, c.z);
    crate::fixed::lemma_fmul_bound(prod.x, c.x, 65536, 65536);
    crate::fixed::lemma_fmul_bound(prod.y, c.y, 65536, 65536);
    crate::fixed::lemma_fmul_bound(prod.z, c.z, 65536, 65536);
}

/// Mixing a unit-range color into the accumulator stays within the depth
/// budget, one grid unit per bounce.
proof fn lemma_color_mix_bounds(acc: V3, prod: V3, c: V3, depth: int, d: int)
    requires
        0 <= acc.x <= (depth - d) * 65536,
        0 <= acc.y <= (depth - d) * 65536,
        0 <= acc.z <= (depth - d) * 65536,
        0 <= prod.x <= 65536,
        0 <= prod.y <= 65536,
        0 <= prod.z <= 65536,
        0 <= c.x <= 65536,
        0 <= c.y <= 65536,
        0 <= c.z <= 65536,
        0 <= d <= depth <= 64,
    ensures
        0 <= fmul(prod.x, c.x) <= 65536,
        0 <= fmul(prod.y, c.y) <= 65536,
        0 <= fmul(prod.z, c.z) <= 65536,
        0 <= acc.x + fmul(prod.x, c.x) <= (depth - d + 1) * 65536,
        0 <= acc.y + fmul(prod.y, c.y) <= (depth - d + 1) * 65536,
        0 <= acc.z + fmul(prod.z, c.z) <= (depth - d + 1) * 65536,
{
    crate::fixed::lemma_fmul_nonneg(prod.x, c.x);
    crate::fixed::lemma_fmul_nonneg(prod.y, c.y);
    crate::fixed::lemma_fmul_nonneg(prod.z, c.z);
    crate::fixed::lemma_fmul_bound(prod.x, c.x, 65536, 65536);
    crate::fixed::lemma_fmul_bound(prod.y, c.y, 65536, 65536);
    crate::fixed::lemma_fmul_bound(prod.z, c.z, 65536, 65536);
}

/// The decimal digits of a value, most significant first, as bytes.
pub open spec fn dec_digits(n: nat) -> Seq<u8>
    decreases n,
{
    if n < 10 {
        seq![(48 + n) as u8]
    } else {
        dec_digits(n / 10) + seq![(48 + n % 10) as u8]
    }
}

/// The head of the plain-text pixel stream: the two-byte magic, the
/// dimensions, and the channel maximum, each line-terminated.
pub open spec fn ppm_header(width: nat, height: nat) -> Seq<u8> {
    seq![80u8, 51u8, 10u8] + dec_digits(width) + seq![32u8] + dec_digits(height) + seq![10u8]
        + dec_digits(255) + seq![10u8]
}

/// One pixel line: three decimal channels separated by spaces.
pub open spec fn ppm_line(px: (u8, u8, u8)) -> Seq<u8> {
    dec_digits(px.0 as nat) + seq![32u8] + dec_digits(px.1 as nat) + seq![32u8] + dec_digits(
        px.2 as nat,
    ) + seq![10u8]
}

/// The pixel lines of the stream, in the order given.
pub open spec fn ppm_lines(pixels: Seq<(u8, u8, u8)>) -> Seq<u8>
    decreases pixels.len(),
{
    if pixels.len() == 0 {
        Seq::empty()
    } else {
        ppm_lines(pixels.drop_last()) + ppm_line(pixels.last())
    }
}

/// Appends the decimal digits of a value.
fn push_decimal(out: &mut Vec<u8>, n: u32)
    ensures
        final(out)@ == old(out)@ + dec_digits(n as nat),
    decreases n,
{
    let ghost entry = out@;
    if n >= 10 {
        proof {
            vstd::arithmetic::div_mod::lemma_div_is_ordered_by_denominator(n as int, 1, 10);
            vstd::arithmetic::div_mod::lemma_div_is_strictly_smaller(n as int, 10);
        }
        push_decimal(out, n / 10);
    }
    out.push(48 + (n % 10) as u8);
    proof {
        assert(out@ =~= entry + dec_digits(n as nat));
    }
}

/// The whole plain-text pixel stream for a frame: the header, then one
/// line per pixel in the grid's row-major order, byte for byte as the
/// output sink prints it.
pub fn ppm_bytes(pixels: &Vec<(u8, u8, u8)>, width: u32, height: u32) -> (r: Vec<u8>)
    requires
        pixels@.len() == width * height,
    ensures
        r@ == ppm_header(width as nat, height as nat) + ppm_lines(pixels@),
{
    let mut out: Vec<u8> = Vec::new();
    out.push(80);
    out.push(51);
    out.push(10);
    push_decimal(&mut out, width);
    out.push(32);
    push_decimal(&mut out, height);
    out.push(10);
    push_decimal(&mut out, 255);
    out.push(10);
    proof {
        assert(out@ =~= ppm_header(width as nat, height as nat) + ppm_lines(
            pixels@.subrange(0, 0),
        ));
    }
    let mut i: usize = 0;
    while i < pixels.len()
        invariant
            i <= pixels@.len(),
            out@ == ppm_header(width as nat, height as nat) + ppm_lines(
                pixels@.subrange(0, i as int),
            ),
        decreases pixels@.len() - i,
    {
        let px = pixels[i];
        push_decimal(&mut out, px.0 as u32);
        out.push(32);
        push_decimal(&mut out, px.1 as u32);
        out.push(32);
        push_decimal(&mut out, px.2 as u32);
        out.push(10);
        proof {
            assert(pixels@.subrange(0, i as int + 1).drop_last() =~= pixels@.subrange(
                0,
                i as int,
            ));
            assert(pixels@.subrange(0, i as int + 1).last() == pixels@[i as int]);
            assert(out@ =~= ppm_header(width as nat, height as nat) + ppm_lines(
                pixels@.subrange(0, i as int + 1),
            ));
        }
        i = i + 1;
    }
    proof {
        assert(pixels@.subrange(0, pixels@.len() as int) =~= pixels@);
    }
    out
}

/// Relies on itertools' `cartesian_product` over the two index ranges: the
/// row-major list of all (row, column) pairs.
#[verifier::external_body]
fn pixel_grid(rows: u32, cols: u32) -> (r: Vec<(u32, u32)>)
    requires
        rows * cols <= 0x1000000,
    ensures
        r@.len() == rows * cols,
        forall|k: int|
            0 <= k < r@.len() ==> #[trigger] r@[k] == ((
            (k / (cols as int)) as u32,
            (k % (cols as int)) as u32,
        )),
{
    itertools::Itertools::cartesian_product(0..rows, 0..cols).collect()
}

} // verus!
