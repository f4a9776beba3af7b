use raytracing::buffer::PixelBuffer;
use raytracing::camera::Camera;
use raytracing::color::{color_bytes, linear_to_gamma, write_color};
use raytracing::fixed::Fx;
use raytracing::hittable_list::HittableList;
use raytracing::material::{Lambertian, Material};
use raytracing::rng::Rng64;
use raytracing::sphere::Sphere;
use raytracing::vec3::Vec3;

fn fx(micros: i64) -> Fx {
    Fx::from_micros(micros)
}

fn one_sphere_world() -> HittableList {
    let mut world = HittableList::new();
    let albedo = Vec3::build(fx(500_000), fx(500_000), fx(500_000));
    world.add(Sphere::new(
        &Vec3::build(fx(0), fx(0), fx(-1_000_000)),
        fx(500_000),
        Material::Lambertian(Lambertian::new(albedo)),
    ));
    world
}

// Gamma and quantization: a linear 1.0 maps to byte 255, a linear 0.0 to 0,
// and the written pixel is fully opaque.
#[test]
fn gamma_quantization_extremes() {
    let mut img = PixelBuffer::new(2, 1);
    write_color(0, 0, &mut img, &Vec3::build(Fx::one(), Fx::one(), Fx::one()));
    write_color(1, 0, &mut img, &Vec3::new());
    assert_eq!(img.get_pixel(0, 0), (255, 255, 255, 255));
    assert_eq!(img.get_pixel(1, 0), (0, 0, 0, 255));
}

// Gamma correction is the square root, with negatives mapped to zero.
#[test]
fn gamma_is_square_root() {
    assert_eq!(linear_to_gamma(fx(250_000)), fx(500_000));
    assert_eq!(linear_to_gamma(Fx::one()), Fx::one());
    assert_eq!(linear_to_gamma(fx(-300_000)), fx(0));
    // 0.25 -> sqrt 0.5 -> 256 * 0.5 = 128.
    assert_eq!(color_bytes(&Vec3::build(fx(250_000), fx(0), Fx::one())), (128, 0, 255, 255));
}

// A fresh buffer is zeroed and reports its dimensions.
#[test]
fn buffer_starts_zeroed() {
    let img = PixelBuffer::new(3, 2);
    assert_eq!(img.width(), 3);
    assert_eq!(img.height(), 2);
    assert_eq!(img.get_pixel(2, 1), (0, 0, 0, 0));
}

// The raw container is four bytes per pixel, row major, and matches what
// get_pixel reports.
#[test]
fn buffer_raw_layout() {
    let mut img = PixelBuffer::new(2, 2);
    write_color(1, 0, &mut img, &Vec3::build(Fx::one(), fx(0), fx(0)));
    let probed = img.get_pixel(1, 0);
    assert_eq!(probed, (255, 0, 0, 255));
    let raw = img.into_raw();
    assert_eq!(raw.len(), 16);
    assert_eq!((raw[4], raw[5], raw[6], raw[7]), probed);
}

// Rendering the same scene and camera twice from the same seed produces
// identical pixel buffers; the pixels are written, not left zeroed.
#[test]
fn render_deterministic_for_seed() {
    let camera = Camera::new(Fx::from_int(1), 8);
    let world = one_sphere_world();

    let mut rng1 = Rng64::new(42);
    let img1 = camera.render(&world, &mut rng1);
    let mut rng2 = Rng64::new(42);
    let img2 = camera.render(&world, &mut rng2);

    assert_eq!(img1.width(), 8);
    assert_eq!(img1.height(), 8);
    // The sky above the sphere is lit: the top-left pixel cannot be black.
    assert_ne!(img1.get_pixel(0, 0), (0, 0, 0, 0));
    assert_eq!(img1.into_raw(), img2.into_raw());
}

// A render consumes generator state: a different seed changes the state
// stream (and the generators advance identically for equal seeds).
#[test]
fn render_advances_generator() {
    let camera = Camera::new(Fx::from_int(1), 4);
    let world = one_sphere_world();
    let mut rng1 = Rng64::new(1);
    let mut rng2 = Rng64::new(1);
    let _ = camera.render(&world, &mut rng1);
    let _ = camera.render(&world, &mut rng2);
    assert_eq!(rng1.state, rng2.state);
    assert_ne!(rng1.state, 1);
}
