use raytracer::camera::Camera;
use raytracer::fixed::FX_ONE;
use raytracer::hittable::HittableList;
use raytracer::material::Surface;
use raytracer::rng::rng_from_seed;
use raytracer::shape::{Element, Sphere};
use raytracer::texture::Texture;
use raytracer::trig;
use raytracer::vector::Vector3;

fn diffuse(r: i64, g: i64, b: i64) -> Surface {
    Surface::Diffuse { albedo: Texture::SolidColor(Vector3::new(r, g, b)) }
}

fn two_sphere_world() -> HittableList {
    let mut world = HittableList::new(vec![]);
    world.add(Element::Sphere(Sphere::new(
        Vector3::new(0, -65601536, 0),
        65536000,
        diffuse(32768, 52428, 13107),
    )));
    world.add(Element::Sphere(Sphere::new(Vector3::zero(), 32768, diffuse(45875, 13107, 6554))));
    world
}

fn small_camera() -> Camera {
    Camera::new(
        FX_ONE,
        4,
        1,
        4,
        90 * FX_ONE,
        Vector3::new(0, 0, 2 * FX_ONE),
        Vector3::zero(),
        Vector3::new(0, FX_ONE, 0),
        0,
        2 * FX_ONE,
        Vector3::new(45875, 52428, FX_ONE),
    )
}

#[test]
fn camera_derives_square_image() {
    let cam = small_camera();
    assert_eq!(cam.image_width, 4);
    assert_eq!(cam.image_height, 4);
    assert_eq!(cam.samples_per_pixel, 1);
}

#[test]
fn render_is_reproducible_for_a_fixed_seed() {
    // a ground sphere and a foreground sphere at tiny resolution: the same
    // seed must give the same pixels, run after run
    let world = two_sphere_world();
    let cam = small_camera();
    let first = cam.render(&world, 42);
    let second = cam.render(&world, 42);
    assert_eq!(first.len(), 16);
    assert_eq!(first, second);
}

#[test]
fn pixel_stream_is_byte_identical_for_a_fixed_seed() {
    // the serialized frame, not just the pixel values, must reproduce
    let world = two_sphere_world();
    let cam = small_camera();
    let first = raytracer::camera::ppm_bytes(&cam.render(&world, 42), 4, 4);
    let second = raytracer::camera::ppm_bytes(&cam.render(&world, 42), 4, 4);
    assert_eq!(first, second);
    // the head: magic, dimensions, channel maximum, each line-terminated
    assert_eq!(&first[..11], &[80, 51, 10, 52, 32, 52, 10, 50, 53, 53, 10]);
    // one line terminator per pixel follows
    assert_eq!(first[11..].iter().filter(|b| **b == 10).count(), 16);
}

#[test]
fn render_varies_with_the_scene() {
    let world = two_sphere_world();
    let empty = HittableList::new(vec![]);
    let cam = small_camera();
    let with_spheres = cam.render(&world, 42);
    let background_only = cam.render(&empty, 42);
    assert_ne!(with_spheres, background_only);
    // with nothing to hit, every pixel is the tone-mapped background
    let bg = background_only[0];
    for px in &background_only {
        assert_eq!(*px, bg);
    }
}

#[test]
fn ray_colors_stay_displayable() {
    let world = two_sphere_world();
    let cam = small_camera();
    let mut rng = rng_from_seed(5);
    for k in 0..16u32 {
        let ray = cam.get_ray(k % 4, k / 4, &mut rng);
        let c = cam.ray_color(&mut rng, &ray, &world, 4);
        assert!(c.x >= 0 && c.y >= 0 && c.z >= 0);
        assert!(c.x <= 5 * FX_ONE && c.y <= 5 * FX_ONE && c.z <= 5 * FX_ONE);
    }
}

#[test]
fn random_draws_respect_their_ranges() {
    let mut rng = rng_from_seed(1234);
    for _ in 0..200 {
        let v = raytracer::random_rng(&mut rng, -5, 9);
        assert!((-5..=9).contains(&v));
        let w = raytracer::random(&mut rng);
        assert!((0..=FX_ONE).contains(&w));
        let k = raytracer::random_int_rng(&mut rng, 2, 4);
        assert!((2..=4).contains(&k));
    }
    assert_eq!(raytracer::random_int_rng(&mut rng, 3, 3), 3);
    let unit = Vector3::random_unit_vector(&mut rng);
    assert!(unit.x.abs() <= 3 * FX_ONE);
    let disk = Vector3::random_in_unit_disk(&mut rng);
    assert_eq!(disk.z, 0);
}

#[test]
fn trig_matches_known_points() {
    assert_eq!(trig::sin_fx(0), 0);
    assert_eq!(trig::cos_fx(0), FX_ONE);
    let t = trig::tan_fx(51472);
    assert!((t - FX_ONE).abs() < 400, "tan = {t}");
    assert!(trig::acos_fx(FX_ONE) <= 512);
    assert_eq!(trig::atan2_fx(0, FX_ONE), 0);
    let s = trig::sin_fx(trig::to_radians(90 * FX_ONE));
    assert!((s - FX_ONE).abs() < 64, "sin(90 degrees) = {s}");
}

#[test]
fn sphere_surface_coordinates_match_the_axes() {
    // the -z axis point maps to (0.75, 0.5); +z maps to (0.25, 0.5)
    let s = Sphere::new(Vector3::zero(), FX_ONE, diffuse(100, 100, 100));
    let ray = raytracer::ray::Ray::new(
        Vector3::new(0, 0, 3 * FX_ONE),
        Vector3::new(0, 0, -FX_ONE),
        0,
    );
    let hit = s.hit(&ray, &raytracer::interval::Interval::new(65, 0x40000000)).expect("must hit");
    assert!((hit.u - 16384).abs() <= 64, "u = {}", hit.u);
    assert!((hit.v - 32768).abs() <= 64, "v = {}", hit.v);
}

#[test]
fn reflection_free_function_mirrors_about_the_normal() {
    let v = Vector3::new(0, -FX_ONE, 0);
    let n = Vector3::new(0, FX_ONE, 0);
    let r = raytracer::reflect_ray(&v, &n);
    assert_eq!((r.x, r.y, r.z), (0, FX_ONE, 0));
    let slanted = Vector3::new(FX_ONE, -FX_ONE, 0);
    let r2 = raytracer::reflect_ray(&slanted, &n);
    assert_eq!((r2.x, r2.y, r2.z), (FX_ONE, FX_ONE, 0));
}

#[test]
fn lerp_and_grad_are_exact() {
    assert_eq!(raytracer::lerp(32768, 0, FX_ONE), 32768);
    assert_eq!(raytracer::lerp(0, 7, 9), 7);
    assert_eq!(raytracer::lerp(FX_ONE, 7, 9), 9);
    // hash 0 selects x and y with positive signs
    assert_eq!(raytracer::grad(0, 100, 200, 300), 300);
    // hash 1 negates the first pick
    assert_eq!(raytracer::grad(1, 100, 200, 300), 100);
}

#[test]
fn vector_algebra_basics() {
    let a = Vector3::new(FX_ONE, 2 * FX_ONE, 3 * FX_ONE);
    let b = Vector3::new(4 * FX_ONE, 5 * FX_ONE, 6 * FX_ONE);
    let s = a.add(&b);
    assert_eq!((s.x, s.y, s.z), (5 * FX_ONE, 7 * FX_ONE, 9 * FX_ONE));
    let d = a.dot(&b);
    assert_eq!(d, 32 * FX_ONE);
    let c = a.cross(&b);
    assert_eq!((c.x, c.y, c.z), (-3 * FX_ONE, 6 * FX_ONE, -3 * FX_ONE));
    let u = Vector3::new(3 * FX_ONE, 0, 4 * FX_ONE);
    assert_eq!(u.length(), 5 * FX_ONE);
    let un = u.unit();
    assert_eq!((un.x, un.y, un.z), (39321, 0, 52428));
    assert!(Vector3::new(0, 0, 0).near_zero());
    assert!(!Vector3::new(FX_ONE, 0, 0).near_zero());
}
