use raytracing::camera::Camera;
use raytracing::fixed::Fx;
use raytracing::hittable::{HitRecord, Hittable};
use raytracing::hittable_list::HittableList;
use raytracing::interval::Interval;
use raytracing::material::{Lambertian, Material, Metal};
use raytracing::ray::Ray;
use raytracing::rng::Rng64;
use raytracing::sphere::Sphere;
use raytracing::vec3::Vec3;

fn fx(micros: i64) -> Fx {
    Fx::from_micros(micros)
}

fn gray() -> Material {
    Material::Lambertian(Lambertian::new(Vec3::build(fx(500_000), fx(500_000), fx(500_000))))
}

fn far_interval() -> Interval {
    Interval::with_bounds(Fx::zero(), Fx::max_value())
}

// A ray from outside toward the sphere's center hits at the entry point.
#[test]
fn sphere_entry_hit() {
    let sphere = Sphere::new(&Vec3::build(fx(0), fx(0), fx(-1_000_000)), fx(500_000), gray());
    let ray = Ray::new(&Vec3::new(), &Vec3::build(fx(0), fx(0), fx(-1_000_000)));
    let mut rec = HitRecord::new();
    assert!(sphere.hit(&ray, &far_interval(), &mut rec));
    assert_eq!(rec.t, fx(500_000));
    assert_eq!(rec.point, Vec3::build(fx(0), fx(0), fx(-500_000)));
    assert!(rec.front_face);
    assert_eq!(rec.normal, Vec3::build(fx(0), fx(0), fx(1_000_000)));
}

// A ray starting at the sphere's center reports the exit root, never the
// (negative) entry root.
#[test]
fn sphere_inside_exit_root() {
    let sphere = Sphere::new(&Vec3::build(fx(0), fx(0), fx(-1_000_000)), fx(500_000), gray());
    let ray = Ray::new(
        &Vec3::build(fx(0), fx(0), fx(-1_000_000)),
        &Vec3::build(fx(0), fx(0), fx(-1_000_000)),
    );
    let mut rec = HitRecord::new();
    assert!(sphere.hit(&ray, &far_interval(), &mut rec));
    // Entry root is -0.5, exit root is +0.5: the exit root must be reported.
    assert_eq!(rec.t, fx(500_000));
    assert!(!rec.front_face);
}

// A ray whose perpendicular offset exceeds the radius misses: no hit is
// reported and the discriminant is negative.
#[test]
fn sphere_miss_negative_discriminant() {
    let center = Vec3::build(fx(0), fx(0), fx(-1_000_000));
    let radius = fx(500_000);
    let origin = Vec3::build(fx(0), Fx::from_int(2), fx(0));
    let dir = Vec3::build(fx(0), fx(0), fx(-1_000_000));
    let sphere = Sphere::new(&center, radius, gray());
    let ray = Ray::new(&origin, &dir);
    let mut rec = HitRecord::new();
    assert!(!sphere.hit(&ray, &far_interval(), &mut rec));
    // Recompute the quadratic's discriminant with the public scalar ops.
    let oc = center.sub(origin);
    let a = dir.length_squared();
    let h = Vec3::dot(&dir, &oc);
    let c = oc.length_squared().sub(radius.mul(radius));
    let discriminant = h.mul(h).sub(a.mul(c));
    assert!(discriminant.lt(Fx::zero()));
}

// A degenerate sphere (negative radius clamps to zero) never reports a hit,
// even for a ray straight through its center.
#[test]
fn sphere_degenerate_no_hit() {
    let sphere = Sphere::new(&Vec3::build(fx(0), fx(0), fx(-1_000_000)), fx(-500_000), gray());
    assert_eq!(sphere.radius, fx(0));
    let ray = Ray::new(&Vec3::new(), &Vec3::build(fx(0), fx(0), fx(-1_000_000)));
    let mut rec = HitRecord::new();
    assert!(!sphere.hit(&ray, &far_interval(), &mut rec));
}

// A ray with a zero direction reports no hit.
#[test]
fn sphere_zero_direction_no_hit() {
    let sphere = Sphere::new(&Vec3::build(fx(0), fx(0), fx(-1_000_000)), fx(500_000), gray());
    let ray = Ray::new(&Vec3::new(), &Vec3::new());
    let mut rec = HitRecord::new();
    assert!(!sphere.hit(&ray, &far_interval(), &mut rec));
}

// The scene reports the globally nearest hit among overlapping spheres, in
// either insertion order.
#[test]
fn scene_nearest_hit() {
    let near = Sphere::new(&Vec3::build(fx(0), fx(0), Fx::from_int(-2)), Fx::from_int(1), gray());
    let far = Sphere::new(
        &Vec3::build(fx(0), fx(0), fx(-2_500_000)),
        Fx::from_int(1),
        Material::Metal(Metal::new(Vec3::build(fx(800_000), fx(800_000), fx(800_000)))),
    );
    let ray = Ray::new(&Vec3::new(), &Vec3::build(fx(0), fx(0), fx(-1_000_000)));

    let mut world = HittableList::new();
    world.add(near);
    world.add(far);
    let mut rec = HitRecord::new();
    assert!(world.hit(&ray, &far_interval(), &mut rec));
    assert_eq!(rec.t, Fx::from_int(1));

    let mut reversed = HittableList::new();
    reversed.add(far);
    reversed.add(near);
    let mut rec2 = HitRecord::new();
    assert!(reversed.hit(&ray, &far_interval(), &mut rec2));
    assert_eq!(rec2.t, Fx::from_int(1));
}

// An empty scene reports no hit and leaves the record alone.
#[test]
fn scene_empty_no_hit() {
    let world = HittableList::new();
    let ray = Ray::new(&Vec3::new(), &Vec3::build(fx(0), fx(0), fx(-1_000_000)));
    let mut rec = HitRecord::new();
    assert!(!world.hit(&ray, &far_interval(), &mut rec));
}

// Lambertian scattering always succeeds, attenuates by the albedo, and
// starts the scattered ray at the hit point.
#[test]
fn lambertian_scatter_albedo() {
    let mat = gray();
    let sphere = Sphere::new(&Vec3::build(fx(0), fx(0), fx(-1_000_000)), fx(500_000), mat);
    let ray = Ray::new(&Vec3::new(), &Vec3::build(fx(0), fx(0), fx(-1_000_000)));
    let mut rec = HitRecord::new();
    assert!(sphere.hit(&ray, &far_interval(), &mut rec));
    let mut attenuation = Vec3::new();
    let mut scattered = Ray::new(&Vec3::new(), &Vec3::new());
    let mut rng = Rng64::new(11);
    assert!(rec.material.scatter(&ray, &rec, &mut attenuation, &mut scattered, &mut rng));
    assert_eq!(attenuation, Vec3::build(fx(500_000), fx(500_000), fx(500_000)));
    assert_eq!(scattered.origin, rec.point);
}

// Metal scattering reflects the incoming direction about the normal.
#[test]
fn metal_scatter_reflects() {
    let albedo = Vec3::build(fx(800_000), fx(600_000), fx(200_000));
    let metal = Metal::new(albedo);
    let mut rec = HitRecord::new();
    rec.point = Vec3::build(fx(0), fx(0), fx(-500_000));
    rec.normal = Vec3::build(fx(0), fx(0), fx(1_000_000));
    let r_in = Ray::new(&Vec3::new(), &Vec3::build(fx(0), fx(0), fx(-1_000_000)));
    let mut attenuation = Vec3::new();
    let mut scattered = Ray::new(&Vec3::new(), &Vec3::new());
    let mut rng = Rng64::new(11);
    assert!(metal.scatter(&r_in, &rec, &mut attenuation, &mut scattered, &mut rng));
    assert_eq!(attenuation, albedo);
    // Reflecting (0,0,-1) about (0,0,1) gives (0,0,1).
    assert_eq!(scattered.dir, Vec3::build(fx(0), fx(0), fx(1_000_000)));
}

// Reflecting twice about an axis unit normal returns the original vector.
#[test]
fn reflect_involution_axis() {
    let v = Vec3::build(fx(1_250_000), fx(-3_500_000), Fx::from_int(2));
    let n = Vec3::build(fx(0), fx(0), fx(-1_000_000));
    let once = v.reflect(&n);
    assert_eq!(once, Vec3::build(fx(1_250_000), fx(-3_500_000), Fx::from_int(-2)));
    assert_eq!(once.reflect(&n), v);
}

// The identity also holds for a non-axis unit normal on favorable inputs.
#[test]
fn reflect_involution_pythagorean_normal() {
    let v = Vec3::build(Fx::from_int(1), fx(0), fx(0));
    let n = Vec3::build(fx(600_000), fx(800_000), fx(0));
    assert_eq!(v.reflect(&n).reflect(&n), v);
}

// Normalizing a Pythagorean vector gives length exactly one.
#[test]
fn normalize_pythagorean_exact() {
    let v = Vec3::build(Fx::from_int(3), Fx::from_int(4), fx(0));
    let n = Vec3::normalize(&v);
    assert_eq!(n, Vec3::build(fx(600_000), fx(800_000), fx(0)));
    assert_eq!(n.length(), Fx::from_int(1));
}

// A random unit vector has length one up to the scalar's resolution.
#[test]
fn random_unit_vector_length() {
    let mut rng = Rng64::new(2024);
    for _ in 0..50 {
        let v = Vec3::random_unit_vector(&mut rng);
        let len = v.length();
        assert!(len.raw >= 999_000 && len.raw <= 1_001_000, "length {}", len.raw);
    }
}

// A hemisphere sample never points against the normal.
#[test]
fn hemisphere_sample_side() {
    let normal = Vec3::build(fx(0), fx(0), fx(1_000_000));
    let mut rng = Rng64::new(5);
    for _ in 0..20 {
        let v = Vec3::random_on_hemisphere(&normal, &mut rng);
        assert!(!Vec3::dot(&v, &normal).lt(Fx::zero()));
    }
}

// End to end: one gray sphere dead ahead; after one diffuse bounce into the
// sky the resolved color is strictly between black and the sky's peak.
#[test]
fn one_sphere_bounce_attenuated() {
    let camera = Camera::new(Fx::from_int(1), 16);
    let mut world = HittableList::new();
    world.add(Sphere::new(&Vec3::build(fx(0), fx(0), fx(-1_000_000)), fx(500_000), gray()));
    let ray = Ray::new(&Vec3::new(), &Vec3::build(fx(0), fx(0), fx(-1_000_000)));
    let mut rng = Rng64::new(7);
    let color = camera.ray_color(&ray, &world, 10, &mut rng);
    for channel in [color.x, color.y, color.z] {
        assert!(channel.gt(Fx::zero()), "channel {}", channel.raw);
        // The albedo halves every channel, so nothing reaches the sky's peak.
        assert!(channel.raw <= 500_000, "channel {}", channel.raw);
    }
}

// The camera geometry of a square viewport comes out exactly.
#[test]
fn camera_geometry_square() {
    let camera = Camera::new(Fx::from_int(1), 100);
    assert_eq!(camera.image_height, 100);
    assert_eq!(camera.pixel_delta_u, Vec3::build(fx(20_000), fx(0), fx(0)));
    assert_eq!(camera.pixel_delta_v, Vec3::build(fx(0), fx(-20_000), fx(0)));
    assert_eq!(
        camera.pixel_00_loc,
        Vec3::build(fx(-990_000), fx(990_000), fx(-1_000_000))
    );
    assert_eq!(camera.pixel_samples_scale, fx(100_000));
}

// Interval predicates: contains is inclusive, surrounds exclusive.
#[test]
fn interval_predicates() {
    let i = Interval::with_bounds(fx(0), Fx::from_int(1));
    assert!(i.contains(fx(0)));
    assert!(i.contains(Fx::from_int(1)));
    assert!(!i.surrounds(fx(0)));
    assert!(!i.surrounds(Fx::from_int(1)));
    assert!(i.surrounds(fx(500_000)));
    assert_eq!(i.size(), Fx::from_int(1));
    assert_eq!(i.clamp(Fx::from_int(2)), Fx::from_int(1));
    assert_eq!(i.clamp(fx(-5)), fx(0));
    assert_eq!(i.clamp(fx(250_000)), fx(250_000));
    let empty = Interval::new();
    assert!(!empty.contains(fx(0)));
}

// The seeded generator is deterministic and the scalar helpers are exact.
#[test]
fn rng_and_scalar_ops() {
    let mut a = Rng64::new(99);
    let mut b = Rng64::new(99);
    for _ in 0..10 {
        assert_eq!(a.next_u64(), b.next_u64());
    }
    let u = a.next_unit();
    assert!(u.raw >= 0 && u.raw < 1_000_000);
    // 0.5 * 0.7 == 0.35 exactly in decimal fixed point.
    assert_eq!(fx(500_000).mul(fx(700_000)), fx(350_000));
    assert_eq!(Fx::from_int(7).div(Fx::from_int(2)), fx(3_500_000));
    assert_eq!(fx(250_000).sqrt(), fx(500_000));
    // The square root of 2 truncates at the sixth decimal.
    assert_eq!(Fx::from_int(2).sqrt(), fx(1_414_213));
    assert_eq!(raytracing::degrees_to_radians(Fx::from_int(180)), fx(3_141_593));
}

// random_range spans [min, max) and random_float [0, 1).
#[test]
fn random_helpers_in_range() {
    let mut rng = Rng64::new(13);
    for _ in 0..20 {
        let f = raytracing::random_float(&mut rng);
        assert!(f.raw >= 0 && f.raw < 1_000_000);
        let r = raytracing::random_range(Fx::from_int(-1), Fx::from_int(1), &mut rng);
        assert!(r.raw >= -1_000_000 && r.raw < 1_000_000);
        let v = Vec3::random(&mut rng);
        assert!(v.x.raw >= 0 && v.x.raw < 1_000_000);
        let w = Vec3::random_range(Fx::from_int(-1), Fx::from_int(1), &mut rng);
        assert!(w.y.raw >= -1_000_000 && w.y.raw < 1_000_000);
    }
}

// near_zero holds only for the exact zero vector at this resolution.
#[test]
fn near_zero_is_exact_zero() {
    assert!(Vec3::new().near_zero());
    assert!(!Vec3::build(fx(1), fx(0), fx(0)).near_zero());
}
