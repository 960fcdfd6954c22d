use raytracer::fixed::FX_ONE;
use raytracer::hittable::HittableList;
use raytracer::interval::Interval;
use raytracer::material::Surface;
use raytracer::ray::Ray;
use raytracer::shape::a_box::a_box;
use raytracer::shape::{Element, Quad, Sphere};
use raytracer::texture::Texture;
use raytracer::vector::Vector3;

fn gray() -> Surface {
    Surface::Diffuse { albedo: Texture::SolidColor(Vector3::from_one(32768)) }
}

#[test]
fn sphere_near_hit_from_front() {
    // unit sphere at the origin, ray from (0,0,3) toward -z
    let s = Sphere::new(Vector3::zero(), FX_ONE, gray());
    let ray = Ray::new(Vector3::new(0, 0, 3 * FX_ONE), Vector3::new(0, 0, -FX_ONE), 0);
    let hit = s.hit(&ray, &Interval::new(65, 0x40000000)).expect("must hit");
    assert_eq!(hit.t, 2 * FX_ONE);
    assert_eq!((hit.p.x, hit.p.y, hit.p.z), (0, 0, FX_ONE));
    assert_eq!((hit.normal.x, hit.normal.y, hit.normal.z), (0, 0, FX_ONE));
    assert!(hit.front_face);
}

#[test]
fn sphere_miss() {
    let s = Sphere::new(Vector3::zero(), FX_ONE, gray());
    let ray = Ray::new(Vector3::new(3 * FX_ONE, 0, 3 * FX_ONE), Vector3::new(0, 0, -FX_ONE), 0);
    assert!(s.hit(&ray, &Interval::new(65, 0x40000000)).is_none());
}

#[test]
fn sphere_far_root_when_inside() {
    // from the center, the near root is behind the minimum, the far one hits
    let s = Sphere::new(Vector3::zero(), FX_ONE, gray());
    let ray = Ray::new(Vector3::zero(), Vector3::new(0, 0, -FX_ONE), 0);
    let hit = s.hit(&ray, &Interval::new(65, 0x40000000)).expect("must hit");
    assert_eq!(hit.t, FX_ONE);
    assert!(!hit.front_face);
}

#[test]
fn moving_sphere_center_interpolates() {
    let s = Sphere::new_moving(Vector3::zero(), Vector3::new(0, FX_ONE, 0), 32768, gray());
    let c = s.center(32768);
    assert_eq!((c.x, c.y, c.z), (0, 32768, 0));
}

#[test]
fn quad_hit_with_uv() {
    // unit quad in the xy plane, ray along +z through (0.5, 0.5, -1)
    let q = Quad::new(
        Vector3::zero(),
        Vector3::new(FX_ONE, 0, 0),
        Vector3::new(0, FX_ONE, 0),
        gray(),
    );
    let ray = Ray::new(Vector3::new(32768, 32768, -FX_ONE), Vector3::new(0, 0, FX_ONE), 0);
    let hit = q.hit(&ray, &Interval::new(65, 0x40000000)).expect("must hit");
    assert_eq!(hit.t, FX_ONE);
    assert_eq!(hit.u, 32768);
    assert_eq!(hit.v, 32768);
}

#[test]
fn quad_miss_outside_edges() {
    let q = Quad::new(
        Vector3::zero(),
        Vector3::new(FX_ONE, 0, 0),
        Vector3::new(0, FX_ONE, 0),
        gray(),
    );
    let ray = Ray::new(
        Vector3::new(FX_ONE + 32768, 32768, -FX_ONE),
        Vector3::new(0, 0, FX_ONE),
        0,
    );
    assert!(q.hit(&ray, &Interval::new(65, 0x40000000)).is_none());
}

#[test]
fn quad_parallel_ray_misses() {
    let q = Quad::new(
        Vector3::zero(),
        Vector3::new(FX_ONE, 0, 0),
        Vector3::new(0, FX_ONE, 0),
        gray(),
    );
    let ray = Ray::new(Vector3::new(0, 0, -FX_ONE), Vector3::new(FX_ONE, 0, 0), 0);
    assert!(q.hit(&ray, &Interval::new(65, 0x40000000)).is_none());
}

#[test]
fn aggregate_reports_nearest_hit() {
    // two spheres along -z: the aggregate must report the closer one,
    // whichever order it holds them in
    let near = Element::Sphere(Sphere::new(Vector3::zero(), 32768, gray()));
    let far = Element::Sphere(Sphere::new(Vector3::new(0, 0, -2 * FX_ONE), 32768, gray()));
    let ray = Ray::new(Vector3::new(0, 0, 2 * FX_ONE), Vector3::new(0, 0, -FX_ONE), 0);

    let near2 = Element::Sphere(Sphere::new(Vector3::zero(), 32768, gray()));
    let far2 = Element::Sphere(Sphere::new(Vector3::new(0, 0, -2 * FX_ONE), 32768, gray()));

    let world_a = HittableList::new(vec![near, far]);
    let world_b = HittableList::new(vec![far2, near2]);
    let ha = world_a.hit(&ray, &Interval::new(65, 0x40000000)).expect("must hit");
    let hb = world_b.hit(&ray, &Interval::new(65, 0x40000000)).expect("must hit");
    assert_eq!(ha.t, 98304);
    assert_eq!(hb.t, 98304);
}

#[test]
fn aggregate_empty_reports_none() {
    let world = HittableList::new(vec![]);
    let ray = Ray::new(Vector3::new(0, 0, 2 * FX_ONE), Vector3::new(0, 0, -FX_ONE), 0);
    assert!(world.hit(&ray, &Interval::new(65, 0x40000000)).is_none());
}

#[test]
fn translate_moves_hit_point() {
    let inner = Element::Sphere(Sphere::new(Vector3::zero(), 32768, gray()));
    let moved = Element::Translate { offset: Vector3::new(FX_ONE, 0, 0), object: Box::new(inner) };
    let ray = Ray::new(Vector3::new(FX_ONE, 0, 2 * FX_ONE), Vector3::new(0, 0, -FX_ONE), 0);
    let hit = moved.hit(&ray, &Interval::new(65, 0x40000000)).expect("must hit");
    assert_eq!(hit.t, 98304);
    assert_eq!(hit.p.x, FX_ONE);
    assert_eq!(hit.p.z, 32768);
}

#[test]
fn rotate_y_by_zero_is_identity() {
    let plain = Sphere::new(Vector3::new(0, 0, -2 * FX_ONE), 32768, gray());
    let wrapped = Element::new_rotate_y(
        0,
        Element::Sphere(Sphere::new(Vector3::new(0, 0, -2 * FX_ONE), 32768, gray())),
    );
    let ray = Ray::new(Vector3::new(0, 0, 2 * FX_ONE), Vector3::new(0, 0, -FX_ONE), 0);
    let h1 = plain.hit(&ray, &Interval::new(65, 0x40000000)).expect("must hit");
    let h2 = wrapped.hit(&ray, &Interval::new(65, 0x40000000)).expect("must hit");
    assert_eq!(h1.t, h2.t);
    assert_eq!((h1.p.x, h1.p.y, h1.p.z), (h2.p.x, h2.p.y, h2.p.z));
}

#[test]
fn box_has_six_faces_and_front_hit() {
    let sides = a_box(&Vector3::zero(), &Vector3::from_one(FX_ONE), gray());
    assert_eq!(sides.objects.len(), 6);
    let ray = Ray::new(Vector3::new(32768, 32768, 2 * FX_ONE), Vector3::new(0, 0, -FX_ONE), 0);
    let hit = sides.hit(&ray, &Interval::new(65, 0x40000000)).expect("must hit");
    assert_eq!(hit.t, FX_ONE);
    assert_eq!(hit.p.z, FX_ONE);
}

#[test]
fn thin_box_still_has_proper_faces() {
    // a slab only 1/256 of a unit thick: every face is still a real quad
    let sides = a_box(&Vector3::zero(), &Vector3::new(FX_ONE, FX_ONE, 256), gray());
    assert_eq!(sides.objects.len(), 6);
    let ray = Ray::new(Vector3::new(32768, 32768, FX_ONE), Vector3::new(0, 0, -FX_ONE), 0);
    let hit = sides.hit(&ray, &Interval::new(65, 0x40000000)).expect("must hit");
    assert_eq!(hit.p.z, 256);
    assert_eq!(hit.t, 65280);
}

#[test]
fn box_element_nests_inside_an_aggregate() {
    let sides = a_box(&Vector3::zero(), &Vector3::from_one(FX_ONE), gray());
    let world = HittableList::new(vec![Element::Box(sides)]);
    let ray = Ray::new(Vector3::new(32768, 32768, 2 * FX_ONE), Vector3::new(0, 0, -FX_ONE), 0);
    let hit = world.hit(&ray, &Interval::new(65, 0x40000000)).expect("must hit");
    assert_eq!(hit.t, FX_ONE);
}

#[test]
fn interval_contains_and_surrounds() {
    let iv = Interval::new(0, FX_ONE);
    assert!(iv.contains(0));
    assert!(iv.contains(FX_ONE));
    assert!(!iv.contains(-1));
    assert!(!iv.surrounds(0));
    assert!(iv.surrounds(1));
    assert_eq!(iv.clamp(-5), 0);
    assert_eq!(iv.clamp(FX_ONE + 5), FX_ONE);
    assert_eq!(iv.clamp(17), 17);
    let from_pair: Interval = (3, 7).into();
    assert_eq!(from_pair.min, 3);
    assert_eq!(from_pair.max, 7);
}

#[test]
fn list_add_and_clear() {
    let mut world = HittableList::new(vec![]);
    world.add(Element::Sphere(Sphere::new(Vector3::zero(), 32768, gray())));
    assert_eq!(world.objects.len(), 1);
    world.clear();
    assert_eq!(world.objects.len(), 0);
}
