//! The camera and the render loop.
//!
//! For every pixel the camera casts jittered sample rays, resolves each one's
//! color through scene intersection and recursive material scattering (capped
//! by a bounce budget), averages the samples, and writes the gamma-corrected,
//! quantized result into the pixel buffer. The whole render is an exact
//! function of the camera, the scene, and the generator seed.

use vstd::prelude::*;

verus! {

use crate::buffer::{PixelBuffer, image_dims, image_pixels};
use crate::color::{Color, scolor_bytes, write_color};
use crate::fixed::{Fx, fadd, fsub, fmul, fdiv, tdiv, SCALE};
use crate::hittable::{HitRecord, Hittable};
use crate::hittable_list::{HittableList, spec_list_hit};
use crate::interval::Interval;
use crate::material::spec_scatter;
use crate::ray::Ray;
use crate::rng::{Rng64, next64, unit_micros};
use crate::sphere::Sphere;
use crate::vec3::{Point3, Vec3, sv, sadd, ssub, smul, smulv, sdivs, slen_sq, snormalize};
use crate::random_float;

/// A camera: public configuration plus the viewport geometry derived from it.
#[derive(Clone, Copy)]
pub struct Camera {
    pub aspect_ratio: Fx,
    pub image_width: u32,
    pub samples_per_pixel: u32,
    pub max_depth: u32,
    pub image_height: u32,
    pub pixel_samples_scale: Fx,
    pub origin: Point3,
    pub pixel_00_loc: Point3,
    pub pixel_delta_u: Vec3,
    pub pixel_delta_v: Vec3,
}

/// A positive scalar truncated to a pixel count, saturating at `u32::MAX`.
pub open spec fn fx_to_u32(x: int) -> int {
    let q = tdiv(x, SCALE as int);
    if q < 0 {
        0
    } else if q > u32::MAX {
        u32::MAX as int
    } else {
        q
    }
}

/// The camera derived from an aspect ratio and an image width: a viewport of
/// height 2 at focal length 1 in front of an origin at zero, ten samples per
/// pixel and a bounce budget of ten.
pub open spec fn spec_camera(aspect_ratio: Fx, image_width: u32) -> Camera {
    let w_fx = (image_width as int) * (SCALE as int);
    let ih = fx_to_u32(fdiv(w_fx, aspect_ratio@));
    let viewport_width = fmul(2_000_000, aspect_ratio@);
    let vu = sv(viewport_width, 0, 0);
    let vv = sv(0, -2_000_000, 0);
    let pdu = sdivs(vu, w_fx);
    let pdv = sdivs(vv, ih * (SCALE as int));
    let upper_left = ssub(
        ssub(ssub(sv(0, 0, 0), sv(0, 0, 1_000_000)), sdivs(vu, 2_000_000)),
        sdivs(vv, 2_000_000),
    );
    let p00 = sadd(upper_left, smul(sadd(pdu, pdv), 500_000));
    Camera {
        aspect_ratio,
        image_width,
        samples_per_pixel: 10,
        max_depth: 10,
        image_height: ih as u32,
        pixel_samples_scale: Fx { raw: fdiv(1_000_000, 10_000_000) as i64 },
        origin: sv(0, 0, 0),
        pixel_00_loc: p00,
        pixel_delta_u: pdu,
        pixel_delta_v: pdv,
    }
}

/// The search interval of a camera ray: every strictly positive distance.
pub open spec fn spec_ray_interval() -> Interval {
    Interval { min: Fx { raw: 0 }, max: Fx { raw: i64::MAX } }
}

/// The color a single ray resolves to, and the generator state afterwards.
/// A hit scatters off the material and recurses with the attenuation
/// multiplied in; an exhausted bounce budget is black; a miss is the sky
/// gradient between white and sky blue by the direction's height (black for
/// a degenerate zero direction, which has no height).
pub open spec fn spec_ray_color(r: Ray, objects: Seq<Sphere>, depth: u32, state: u64) -> (
    Color,
    u64,
)
    decreases depth,
{
    if depth == 0 {
        (sv(0, 0, 0), state)
    } else {
        match spec_list_hit(objects, r, spec_ray_interval()) {
            Some(rec) => {
                let (att, scat, s2) = spec_scatter(rec.material, r, rec, state);
                let (c, s3) = spec_ray_color(scat, objects, (depth - 1) as u32, s2);
                (smulv(att, c), s3)
            },
            None => {
                if slen_sq(r.dir) == 0 {
                    (sv(0, 0, 0), state)
                } else {
                    let u = snormalize(r.dir);
                    let a = fmul(500_000, fadd(u.y@, 1_000_000));
                    (
                        sadd(
                            smul(sv(1_000_000, 1_000_000, 1_000_000), fsub(1_000_000, a)),
                            smul(sv(500_000, 700_000, 1_000_000), a),
                        ),
                        state,
                    )
                }
            },
        }
    }
}

/// The jittered ray cast for pixel `(i, j)`: the pixel center offset by two
/// unit draws mapped into `[-0.5, 0.5)`, and the state after the draws.
pub open spec fn spec_get_ray(cam: Camera, i: u32, j: u32, state: u64) -> (Ray, u64) {
    let s1 = next64(state);
    let s2 = next64(s1);
    let ox = fsub(unit_micros(s1), 500_000);
    let oy = fsub(unit_micros(s2), 500_000);
    let fi = (i as int) * (SCALE as int);
    let fj = (j as int) * (SCALE as int);
    let px = sadd(
        sadd(cam.pixel_00_loc, smul(cam.pixel_delta_u, fadd(fi, ox))),
        smul(cam.pixel_delta_v, fadd(fj, oy)),
    );
    (Ray { origin: cam.origin, dir: ssub(px, cam.origin) }, s2)
}

/// The sum of the first `n` sample colors of pixel `(x, y)`, and the state
/// after them.
pub open spec fn spec_sample_sum(
    cam: Camera,
    objects: Seq<Sphere>,
    x: u32,
    y: u32,
    state: u64,
    n: nat,
) -> (Color, u64)
    decreases n,
{
    if n == 0 {
        (sv(0, 0, 0), state)
    } else {
        let (acc, s1) = spec_sample_sum(cam, objects, x, y, state, (n - 1) as nat);
        let (ray, s2) = spec_get_ray(cam, x, y, s1);
        let (c, s3) = spec_ray_color(ray, objects, cam.max_depth, s2);
        (sadd(acc, c), s3)
    }
}

/// The display bytes pixel `(x, y)` receives (the averaged sample sum, gamma
/// corrected and quantized), and the state after its samples.
pub open spec fn spec_pixel(cam: Camera, objects: Seq<Sphere>, x: u32, y: u32, state: u64) -> (
    (u8, u8, u8, u8),
    u64,
) {
    let (sum, s) = spec_sample_sum(cam, objects, x, y, state, cam.samples_per_pixel as nat);
    (scolor_bytes(smul(sum, cam.pixel_samples_scale@)), s)
}

/// The generator state after the first `k` pixels in row-major order.
pub open spec fn spec_state_at(cam: Camera, objects: Seq<Sphere>, seed: u64, k: nat) -> u64
    decreases k,
{
    if k == 0 || cam.image_width == 0 {
        seed
    } else {
        let prev = spec_state_at(cam, objects, seed, (k - 1) as nat);
        let x = ((k - 1) as int) % (cam.image_width as int);
        let y = ((k - 1) as int) / (cam.image_width as int);
        spec_pixel(cam, objects, x as u32, y as u32, prev).1
    }
}

/// The display bytes of pixel `(x, y)` in a full render from `seed`.
pub open spec fn spec_pixel_bytes(
    cam: Camera,
    objects: Seq<Sphere>,
    seed: u64,
    x: u32,
    y: u32,
) -> (u8, u8, u8, u8) {
    spec_pixel(
        cam,
        objects,
        x,
        y,
        spec_state_at(cam, objects, seed, (y * cam.image_width + x) as nat),
    ).0
}

/// The full rendered image: every in-range pixel's display bytes, as an
/// exact function of the camera, the scene, and the seed.
pub open spec fn spec_render(cam: Camera, objects: Seq<Sphere>, seed: u64) -> Map<
    (int, int),
    (u8, u8, u8, u8),
> {
    Map::new(
        |p: (int, int)| 0 <= p.0 < cam.image_width as int && 0 <= p.1 < cam.image_height as int,
        |p: (int, int)| spec_pixel_bytes(cam, objects, seed, p.0 as u32, p.1 as u32),
    )
}

/// Rendering is a pure function of the camera, the scene, and the seed: two
/// renders of the same configuration from the same seed agree on every pixel.
pub proof fn lemma_render_deterministic(
    cam: Camera,
    objects: Seq<Sphere>,
    seed: u64,
    pixels1: Map<(int, int), (u8, u8, u8, u8)>,
    pixels2: Map<(int, int), (u8, u8, u8, u8)>,
)
    requires
        pixels1 == spec_render(cam, objects, seed),
        pixels2 == spec_render(cam, objects, seed),
    ensures
        pixels1 == pixels2,
{
}

impl Camera {
    /// A camera for the given aspect ratio and image width. The width must be
    /// at least one pixel and the derived height at least one pixel (the
    /// viewport is divided by both).
    pub fn new(aspect_ratio: Fx, image_width: u32) -> (r: Self)
        requires
            aspect_ratio@ > 0,
            image_width >= 1,
            fdiv((image_width as int) * (SCALE as int), aspect_ratio@) >= SCALE,
        ensures
            r == spec_camera(aspect_ratio, image_width),
            r.image_height >= 1,
    {
        let w_fx = Fx::from_int(image_width as i64);
        let h_fx = w_fx.div(aspect_ratio);
        let image_height = fx_to_pixels(h_fx);
        proof {
            vstd::arithmetic::div_mod::lemma_div_is_ordered(SCALE as int, h_fx@, SCALE as int);
            assert(SCALE as int / SCALE as int == 1) by (nonlinear_arith);
            assert(image_height >= 1);
        }
        let origin = Point3::new();
        let focal_length = Fx::one();
        let viewport_height = Fx::from_int(2);

        let pixel_samples_scale = Fx::one().div(Fx::from_int(10));
        let viewport_width = viewport_height.mul(aspect_ratio);

        let viewport_u = Vec3::build(viewport_width, Fx::zero(), Fx::zero());
        let viewport_v = Vec3::build(Fx::zero(), viewport_height.neg(), Fx::zero());

        let pixel_delta_u = viewport_u.div(w_fx);
        let pixel_delta_v = viewport_v.div(Fx::from_int(image_height as i64));

        let viewport_upper_left = origin.sub(
            Vec3::build(Fx::zero(), Fx::zero(), focal_length),
        ).sub(viewport_u.div(Fx::from_int(2))).sub(viewport_v.div(Fx::from_int(2)));

        let pixel_00_loc = viewport_upper_left.add(
            pixel_delta_u.add(pixel_delta_v).mul(Fx::from_micros(500_000)),
        );

        Self {
            aspect_ratio,
            image_width,
            samples_per_pixel: 10,
            max_depth: 10,
            image_height,
            pixel_samples_scale,
            origin,
            pixel_00_loc,
            pixel_delta_u,
            pixel_delta_v,
        }
    }

    /// Renders the scene: every pixel of the output buffer receives its
    /// sample-averaged, gamma-corrected color, exactly as `spec_render` says.
    pub fn render(&self, world: &HittableList, rng: &mut Rng64) -> (img: PixelBuffer)
        requires
            4 * (self.image_width as int) * (self.image_height as int) <= usize::MAX as int,
        ensures
            image_dims(img) == (self.image_width as int, self.image_height as int),
            image_pixels(img) == spec_render(*self, world.objects@, old(rng)@),
    {
        let ghost seed = rng@;
        let ghost cam = *self;
        let ghost objects = world.objects@;
        let mut img = PixelBuffer::new(self.image_width, self.image_height);

        let mut y: u32 = 0;
        while y < self.image_height
            invariant
                *self == cam,
                world.objects@ == objects,
                y <= cam.image_height,
                image_dims(img) == (cam.image_width as int, cam.image_height as int),
                rng@ == spec_state_at(cam, objects, seed, (y * cam.image_width) as nat),
                image_pixels(img) == Map::new(
                    |p: (int, int)| 0 <= p.0 < cam.image_width as int && 0 <= p.1
                        < cam.image_height as int,
                    |p: (int, int)|
                        if p.1 < y as int {
                            spec_pixel_bytes(cam, objects, seed, p.0 as u32, p.1 as u32)
                        } else {
                            (0u8, 0u8, 0u8, 0u8)
                        },
                ),
            decreases cam.image_height - y,
        {
            self.render_row(world, &mut img, y, rng, Ghost(seed));
            y = y + 1;
        }
        proof {
            assert(image_pixels(img) =~= spec_render(cam, objects, seed));
        }
        img
    }

    /// Renders one row of pixels, left to right.
    #[verifier::rlimit(100)]
    #[verifier::spinoff_prover]
    fn render_row(
        &self,
        world: &HittableList,
        img: &mut PixelBuffer,
        y: u32,
        rng: &mut Rng64,
        Ghost(seed): Ghost<u64>,
    )
        requires
            y < self.image_height,
            image_dims(*old(img)) == (self.image_width as int, self.image_height as int),
            old(rng)@ == spec_state_at(
                *self,
                world.objects@,
                seed,
                (y * self.image_width) as nat,
            ),
            image_pixels(*old(img)) == Map::new(
                |p: (int, int)| 0 <= p.0 < self.image_width as int && 0 <= p.1
                    < self.image_height as int,
                |p: (int, int)|
                    if p.1 < y as int {
                        spec_pixel_bytes(*self, world.objects@, seed, p.0 as u32, p.1 as u32)
                    } else {
                        (0u8, 0u8, 0u8, 0u8)
                    },
            ),
        ensures
            image_dims(*final(img)) == image_dims(*old(img)),
            final(rng)@ == spec_state_at(
                *self,
                world.objects@,
                seed,
                ((y + 1) * self.image_width) as nat,
            ),
            image_pixels(*final(img)) == Map::new(
                |p: (int, int)| 0 <= p.0 < self.image_width as int && 0 <= p.1
                    < self.image_height as int,
                |p: (int, int)|
                    if p.1 < y as int + 1 {
                        spec_pixel_bytes(*self, world.objects@, seed, p.0 as u32, p.1 as u32)
                    } else {
                        (0u8, 0u8, 0u8, 0u8)
                    },
            ),
    {
        let ghost cam = *self;
        let ghost objects = world.objects@;
        let mut x: u32 = 0;
        while x < self.image_width
            invariant
                *self == cam,
                world.objects@ == objects,
                y < cam.image_height,
                x <= cam.image_width,
                image_dims(*img) == (cam.image_width as int, cam.image_height as int),
                rng@ == spec_state_at(cam, objects, seed, (y * cam.image_width + x) as nat),
                image_pixels(*img) == Map::new(
                    |p: (int, int)| 0 <= p.0 < cam.image_width as int && 0 <= p.1
                        < cam.image_height as int,
                    |p: (int, int)|
                        if p.1 < y as int || (p.1 == y as int && p.0 < x as int) {
                            spec_pixel_bytes(cam, objects, seed, p.0 as u32, p.1 as u32)
                        } else {
                            (0u8, 0u8, 0u8, 0u8)
                        },
                ),
            decreases cam.image_width - x,
        {
            let ghost pixel_state = rng@;
            self.render_pixel(world, img, x, y, rng);
            proof {
                let k = (y * cam.image_width + x) as nat;
                vstd::arithmetic::div_mod::lemma_fundamental_div_mod_converse(
                    k as int,
                    cam.image_width as int,
                    y as int,
                    x as int,
                );
                assert(spec_state_at(cam, objects, seed, (k + 1) as nat) == spec_pixel(
                    cam,
                    objects,
                    x,
                    y,
                    pixel_state,
                ).1);
                assert(image_pixels(*img) =~= Map::new(
                    |p: (int, int)| 0 <= p.0 < cam.image_width as int && 0 <= p.1
                        < cam.image_height as int,
                    |p: (int, int)|
                        if p.1 < y as int || (p.1 == y as int && p.0 < x as int + 1) {
                            spec_pixel_bytes(cam, objects, seed, p.0 as u32, p.1 as u32)
                        } else {
                            (0u8, 0u8, 0u8, 0u8)
                        },
                ));
            }
            x = x + 1;
        }
        proof {
            assert((y + 1) * cam.image_width == y * cam.image_width + cam.image_width)
                by (nonlinear_arith);
            assert(image_pixels(*img) =~= Map::new(
                |p: (int, int)| 0 <= p.0 < cam.image_width as int && 0 <= p.1
                    < cam.image_height as int,
                |p: (int, int)|
                    if p.1 < y as int + 1 {
                        spec_pixel_bytes(cam, objects, seed, p.0 as u32, p.1 as u32)
                    } else {
                        (0u8, 0u8, 0u8, 0u8)
                    },
            ));
        }
    }

    /// Renders one pixel: casts the configured number of jittered sample
    /// rays, averages their colors, and writes the result.
    fn render_pixel(
        &self,
        world: &HittableList,
        img: &mut PixelBuffer,
        x: u32,
        y: u32,
        rng: &mut Rng64,
    )
        requires
            (x as int) < image_dims(*old(img)).0,
            (y as int) < image_dims(*old(img)).1,
        ensures
            image_dims(*final(img)) == image_dims(*old(img)),
            final(rng)@ == spec_pixel(*self, world.objects@, x, y, old(rng)@).1,
            image_pixels(*final(img)) == image_pixels(*old(img)).insert(
                (x as int, y as int),
                spec_pixel(*self, world.objects@, x, y, old(rng)@).0,
            ),
    {
        let ghost cam = *self;
        let ghost objects = world.objects@;
        let ghost pixel_state = rng@;
        let mut pixel_color = Color::new();
        let mut s: u32 = 0;
        while s < self.samples_per_pixel
            invariant
                *self == cam,
                world.objects@ == objects,
                s <= cam.samples_per_pixel,
                (pixel_color, rng@) == spec_sample_sum(cam, objects, x, y, pixel_state, s as nat),
            decreases cam.samples_per_pixel - s,
        {
            let ray = self.get_ray(x, y, rng);
            let sample = self.ray_color(&ray, world, self.max_depth, rng);
            pixel_color.add_assign(sample);
            s = s + 1;
        }
        write_color(x, y, img, &pixel_color.mul(self.pixel_samples_scale));
    }

    /// The color a single ray resolves to, scattering recursively until the
    /// bounce budget `depth` runs out.
    pub fn ray_color(&self, ray: &Ray, world: &HittableList, depth: u32, rng: &mut Rng64) -> (r:
        Color)
        ensures
            ({
                let (c, s) = spec_ray_color(*ray, world.objects@, depth, old(rng)@);
                r == c && final(rng)@ == s
            }),
        decreases depth,
    {
        if depth == 0 {
            return Color::new();
        }
        let mut rec = HitRecord::new();
        if world.hit(&ray, &Interval::with_bounds(Fx::zero(), Fx::max_value()), &mut rec) {
            let mut attenuation = Color::new();
            let mut scattered = Ray::new(&Point3::new(), &Vec3::new());
            if rec.material.scatter(ray, &rec, &mut attenuation, &mut scattered, rng) {
                let bounced = self.ray_color(&scattered, world, depth - 1, rng);
                return attenuation.mul_vec(bounced);
            }
            return Color::new();
        }

        let ls = ray.direction().length_squared();
        if ls.raw == 0 {
            // A direction of zero length has no height to blend the sky by.
            return Color::new();
        }
        proof {
            crate::vec3::lemma_slen_sq_nonneg(ray.dir);
            crate::fixed::lemma_fsqrt_pos(ls@);
        }
        let unit_direction = Vec3::normalize(&ray.direction());
        let a = Fx::from_micros(500_000).mul(unit_direction.y().add(Fx::one()));
        let white = Color::build(Fx::one(), Fx::one(), Fx::one());
        let blue = Color::build(Fx::from_micros(500_000), Fx::from_micros(700_000), Fx::one());
        white.mul(Fx::one().sub(a)).add(blue.mul(a))
    }

    /// A ray from the camera origin toward a randomly jittered point around
    /// pixel `(i, j)`.
    pub fn get_ray(&self, i: u32, j: u32, rng: &mut Rng64) -> (r: Ray)
        ensures
            ({
                let (ray, s) = spec_get_ray(*self, i, j, old(rng)@);
                r == ray && final(rng)@ == s
            }),
    {
        let offset = self.sample_square(rng);
        let fi = Fx::from_int(i as i64);
        let fj = Fx::from_int(j as i64);
        let pixel_sample = self.pixel_00_loc.add(
            self.pixel_delta_u.mul(fi.add(offset.x)),
        ).add(self.pixel_delta_v.mul(fj.add(offset.y)));

        let ray_origin = self.origin;
        let ray_direction = pixel_sample.sub(ray_origin);

        Ray::new(&ray_origin, &ray_direction)
    }

    /// A random offset in `[-0.5, 0.5)` x `[-0.5, 0.5)` on the image plane.
    fn sample_square(&self, rng: &mut Rng64) -> (r: Vec3)
        ensures
            ({
                let s1 = next64(old(rng)@);
                let s2 = next64(s1);
                r == sv(fsub(unit_micros(s1), 500_000), fsub(unit_micros(s2), 500_000), 0)
                    && final(rng)@ == s2
            }),
    {
        let half = Fx::from_micros(500_000);
        let ox = random_float(rng).sub(half);
        let oy = random_float(rng).sub(half);
        Vec3::build(ox, oy, Fx::zero())
    }
}

/// A positive scalar truncated to a pixel count, saturating at `u32::MAX`.
fn fx_to_pixels(x: Fx) -> (r: u32)
    ensures
        r as int == fx_to_u32(x@),
{
    if x.raw <= 0 {
        0
    } else {
        let q: u64 = (x.raw as u64) / 1_000_000;
        if q > u32::MAX as u64 {
            u32::MAX
        } else {
            q as u32
        }
    }
}

} // verus!
