use raytracer::fixed::FX_ONE;
use raytracer::hittable::HitRecord;
use raytracer::material::Surface;
use raytracer::ray::Ray;
use raytracer::refract_ray;
use raytracer::rng::rng_from_seed;
use raytracer::texture::{ImageData, Texture};
use raytracer::vector::Vector3;

#[test]
fn checkered_parity_even_and_odd() {
    // scale one: (0.4, 0.4, 0.4) has parity zero, (1.4, 0.4, 0.4) parity one
    let even = Vector3::new(100, 200, 300);
    let odd = Vector3::new(400, 500, 600);
    let tex = Texture::Checkered { even, odd, scale: FX_ONE };
    let c0 = tex.color(0, 0, &Vector3::from_one(26214));
    assert_eq!((c0.x, c0.y, c0.z), (100, 200, 300));
    let c1 = tex.color(0, 0, &Vector3::new(FX_ONE + 26214, 26214, 26214));
    assert_eq!((c1.x, c1.y, c1.z), (400, 500, 600));
}

#[test]
fn checkered_cells_divide_by_the_scale_exactly() {
    // scale three: x = 9.0 lies in cell three, an odd parity
    let even = Vector3::new(1, 1, 1);
    let odd = Vector3::new(2, 2, 2);
    let tex = Texture::Checkered { even, odd, scale: 3 * FX_ONE };
    let c = tex.color(0, 0, &Vector3::new(9 * FX_ONE, 26214, 26214));
    assert_eq!((c.x, c.y, c.z), (2, 2, 2));
    // just below the cell edge the parity is still even
    let c2 = tex.color(0, 0, &Vector3::new(3 * FX_ONE - 1, 26214, 26214));
    assert_eq!((c2.x, c2.y, c2.z), (1, 1, 1));
}

#[test]
fn solid_color_ignores_coordinates() {
    let tex = Texture::SolidColor(Vector3::new(1, 2, 3));
    let c = tex.color(123, 456, &Vector3::new(-FX_ONE, FX_ONE, 7));
    assert_eq!((c.x, c.y, c.z), (1, 2, 3));
}

#[test]
fn image_texture_samples_pixels() {
    let img = ImageData::new(2, 1, vec![(255, 0, 0), (0, 255, 0)]);
    let tex = Texture::Image(img);
    let left = tex.color(0, 0, &Vector3::zero());
    assert_eq!((left.x, left.y, left.z), (FX_ONE, 0, 0));
    let right = tex.color(FX_ONE, 0, &Vector3::zero());
    assert_eq!((right.x, right.y, right.z), (0, FX_ONE, 0));
}

#[test]
fn empty_image_texture_falls_back_to_cyan() {
    let img = ImageData::new(0, 0, vec![]);
    let tex = Texture::Image(img);
    let c = tex.color(0, 0, &Vector3::zero());
    assert_eq!((c.x, c.y, c.z), (0, FX_ONE, FX_ONE));
}

#[test]
fn perlin_texture_is_deterministic_gray() {
    let mut rng = rng_from_seed(7);
    let p = raytracer::noise::perlin::Perlin::new(&mut rng);
    let tex = Texture::Perlin(p.clone());
    let tex2 = Texture::Perlin(p);
    let at = Vector3::new(3 * FX_ONE / 2, 2 * FX_ONE / 3, 5 * FX_ONE / 4);
    let c1 = tex.color(0, 0, &at);
    let c2 = tex2.color(0, 0, &at);
    assert_eq!((c1.x, c1.y, c1.z), (c2.x, c2.y, c2.z));
    assert_eq!(c1.x, c1.y);
    assert_eq!(c1.y, c1.z);
    assert!(c1.x >= 0 && c1.x <= FX_ONE);
}

#[test]
fn perlin_tables_are_permutations() {
    let mut rng = rng_from_seed(31);
    let p = raytracer::noise::perlin::Perlin::new(&mut rng);
    for table in [&p.perm_x, &p.perm_y, &p.perm_z] {
        let mut sorted = (*table).clone();
        sorted.sort();
        let identity: Vec<i64> = (0..256).collect();
        assert_eq!(sorted, identity);
    }
}

#[test]
fn turbulence_texture_is_nonnegative_gray() {
    let mut rng = rng_from_seed(9);
    let p = raytracer::noise::perlin::Perlin::new(&mut rng);
    let tex = Texture::Turbulence(p);
    let c = tex.color(0, 0, &Vector3::new(FX_ONE / 3, FX_ONE / 5, FX_ONE / 7));
    assert!(c.x >= 0 && c.x <= FX_ONE);
    assert_eq!(c.x, c.y);
    assert_eq!(c.y, c.z);
}

fn mirror_record(normal: Vector3, material: Surface) -> HitRecord {
    HitRecord::new(Vector3::zero(), normal, FX_ONE, material, true, 0, 0)
}

#[test]
fn mirror_with_no_fuzz_keeps_albedo_exactly() {
    // for any incoming direction, a scattered ray keeps the albedo bit for bit
    let albedo = Vector3::new(45875, 39321, 32768);
    let m = Surface::Reflective { albedo, fuzz: 0 };
    let rec = mirror_record(Vector3::new(0, 0, FX_ONE), m.clone());
    let ray_in = Ray::new(Vector3::new(0, 0, 3 * FX_ONE), Vector3::new(0, 0, -FX_ONE), 17);
    let mut rng = rng_from_seed(3);
    let (scattered, attenuation) = m.scatter(&mut rng, &ray_in, &rec).expect("must scatter");
    assert_eq!((attenuation.x, attenuation.y, attenuation.z), (45875, 39321, 32768));
    assert_eq!(
        (scattered.direction.x, scattered.direction.y, scattered.direction.z),
        (0, 0, FX_ONE)
    );
    assert_eq!(scattered.time, 17);
}

#[test]
fn mirror_absorbs_rays_scattered_under_the_surface() {
    let albedo = Vector3::new(45875, 39321, 32768);
    let m = Surface::Reflective { albedo, fuzz: 0 };
    // normal pointing along -z: the reflection of a -z ray lands below it
    let rec = mirror_record(Vector3::new(0, 0, -FX_ONE), m.clone());
    let ray_in = Ray::new(Vector3::new(0, 0, 3 * FX_ONE), Vector3::new(0, 0, -FX_ONE), 0);
    let mut rng = rng_from_seed(3);
    assert!(m.scatter(&mut rng, &ray_in, &rec).is_none());
}

#[test]
fn refraction_obeys_snell_within_tolerance() {
    // a 45-degree incoming ray entering a denser medium at ratio one half:
    // the refracted sine must be half the incident sine
    let uv = Vector3::new(46341, -46341, 0);
    let n = Vector3::new(0, FX_ONE, 0);
    let r = refract_ray(&uv, &n, 32768);
    assert_eq!(r.x, 23170);
    assert_eq!(r.z, 0);
    assert!(r.y < 0);
    // sin^2 of the refracted direction: ratio^2 * sin^2(in) = 1/8 of one
    let sin2 = (r.x as i128 * r.x as i128) / 65536;
    assert!((sin2 - 8192).abs() <= 16, "sin2 = {sin2}");
}

#[test]
fn dielectric_always_scatters_white() {
    let m = Surface::Refractive { idx_of_refraction: 98304 };
    let rec = HitRecord::new(
        Vector3::zero(),
        Vector3::new(0, FX_ONE, 0),
        FX_ONE,
        m.clone(),
        true,
        0,
        0,
    );
    let ray_in = Ray::new(Vector3::new(0, 2 * FX_ONE, 0), Vector3::new(0, -FX_ONE, 0), 5);
    let mut rng = rng_from_seed(11);
    let (scattered, attenuation) = m.scatter(&mut rng, &ray_in, &rec).expect("must scatter");
    assert_eq!((attenuation.x, attenuation.y, attenuation.z), (FX_ONE, FX_ONE, FX_ONE));
    assert_eq!(scattered.time, 5);
}

#[test]
fn light_absorbs_and_emits_its_texture() {
    let m = Surface::DiffuseLight(Texture::SolidColor(Vector3::new(100, 200, 300)));
    let rec = HitRecord::new(
        Vector3::zero(),
        Vector3::new(0, FX_ONE, 0),
        FX_ONE,
        m.clone(),
        true,
        0,
        0,
    );
    let ray_in = Ray::new(Vector3::new(0, 2 * FX_ONE, 0), Vector3::new(0, -FX_ONE, 0), 0);
    let mut rng = rng_from_seed(1);
    assert!(m.scatter(&mut rng, &ray_in, &rec).is_none());
    let e = m.emitted(0, 0, &Vector3::zero());
    assert_eq!((e.x, e.y, e.z), (100, 200, 300));
    let dark = Surface::Diffuse { albedo: Texture::SolidColor(Vector3::zero()) };
    let none = dark.emitted(0, 0, &Vector3::zero());
    assert_eq!((none.x, none.y, none.z), (0, 0, 0));
}

#[test]
fn diffuse_scatter_uses_texture_color() {
    let m = Surface::Diffuse { albedo: Texture::SolidColor(Vector3::new(11, 22, 33)) };
    let rec = HitRecord::new(
        Vector3::new(5, 6, 7),
        Vector3::new(0, FX_ONE, 0),
        FX_ONE,
        m.clone(),
        true,
        0,
        0,
    );
    let ray_in = Ray::new(Vector3::new(0, 2 * FX_ONE, 0), Vector3::new(0, -FX_ONE, 0), 9);
    let mut rng = rng_from_seed(21);
    let (scattered, attenuation) = m.scatter(&mut rng, &ray_in, &rec).expect("must scatter");
    assert_eq!((attenuation.x, attenuation.y, attenuation.z), (11, 22, 33));
    assert_eq!((scattered.origin.x, scattered.origin.y, scattered.origin.z), (5, 6, 7));
    assert_eq!(scattered.time, 9);
}

#[test]
fn tone_mapping_white_and_black() {
    let white_sum = Vector3::from_one(FX_ONE);
    assert_eq!(white_sum.to_pixel(1), (255, 255, 255));
    let black_sum = Vector3::zero();
    assert_eq!(black_sum.to_pixel(1), (0, 0, 0));
}

#[test]
fn gamma_brightens_a_quarter_tone() {
    // one quarter in linear light maps to 0.25^(5/11), about 0.533
    let g = Vector3::linear_to_gamma(16384);
    assert!(g > 34000 && g < 36000, "gamma = {g}");
    assert_eq!(Vector3::linear_to_gamma(0), 0);
    assert_eq!(Vector3::linear_to_gamma(FX_ONE), FX_ONE);
}
