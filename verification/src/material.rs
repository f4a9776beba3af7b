//! Surface materials and how they scatter an incoming ray.
//!
//! The set of physical behaviors is closed and small, so materials are a
//! tagged sum: a diffuse (Lambertian) surface and a reflective (metal)
//! surface. Both always scatter; the boolean result leaves room for future
//! absorbing materials without changing the call contract.

use vstd::prelude::*;

verus! {

use crate::color::Color;
use crate::fixed::Fx;
use crate::hittable::HitRecord;
use crate::ray::Ray;
use crate::rng::Rng64;
use crate::vec3::{Vec3, sadd, sneg, sreflect, snear_zero, sruv, sdot, RUV_TRIES};

/// The closed set of surface materials.
#[derive(Clone, Copy)]
pub enum Material {
    Lambertian(Lambertian),
    Metal(Metal),
}

/// A diffuse surface scattering uniformly around the surface normal.
#[derive(Clone, Copy)]
pub struct Lambertian {
    pub albedo: Color,
}

/// A reflective surface mirroring the incoming ray about the normal.
#[derive(Clone, Copy)]
pub struct Metal {
    pub albedo: Color,
}

/// Diffuse scattering: the new direction is the normal plus a random unit
/// vector; an (exactly) zero sum degenerates to the bare normal. Returns the
/// attenuation, the scattered ray, and the generator state after the draw.
pub open spec fn spec_lambertian_scatter(mat: Lambertian, rec: HitRecord, state: u64) -> (
    Color,
    Ray,
    u64,
) {
    let (u, s) = sruv(state, RUV_TRIES as nat);
    let dir0 = sadd(rec.normal, u);
    let dir = if snear_zero(dir0) {
        rec.normal
    } else {
        dir0
    };
    (mat.albedo, Ray { origin: rec.point, dir }, s)
}

/// Specular scattering: the incoming direction mirrored about the normal.
pub open spec fn spec_metal_scatter(mat: Metal, r_in: Ray, rec: HitRecord) -> (Color, Ray) {
    (mat.albedo, Ray { origin: rec.point, dir: sreflect(r_in.dir, rec.normal) })
}

/// Scattering of any material: attenuation, scattered ray, generator state.
pub open spec fn spec_scatter(mat: Material, r_in: Ray, rec: HitRecord, state: u64) -> (
    Color,
    Ray,
    u64,
) {
    match mat {
        Material::Lambertian(m) => spec_lambertian_scatter(m, rec, state),
        Material::Metal(m) => {
            let (a, r) = spec_metal_scatter(m, r_in, rec);
            (a, r, state)
        },
    }
}

impl Material {
    /// Dispatches scattering to the hit surface's material. Both current
    /// materials always scatter, so this always returns true; the boolean
    /// stands for possible absorption by future materials.
    pub fn scatter(
        &self,
        r_in: &Ray,
        rec: &HitRecord,
        attenuation: &mut Color,
        scattered: &mut Ray,
        rng: &mut Rng64,
    ) -> (b: bool)
        ensures
            ({
                let (a, r, s) = spec_scatter(*self, *r_in, *rec, old(rng)@);
                b && *final(attenuation) == a && *final(scattered) == r && final(rng)@ == s
            }),
    {
        match self {
            Material::Lambertian(mat) => mat.scatter(r_in, rec, attenuation, scattered, rng),
            Material::Metal(mat) => mat.scatter(r_in, rec, attenuation, scattered, rng),
        }
    }
}

impl Default for Material {
    /// A black diffuse material.
    fn default() -> (r: Self)
        ensures
            r == Material::Lambertian(
                Lambertian { albedo: Vec3 { x: Fx { raw: 0 }, y: Fx { raw: 0 }, z: Fx { raw: 0 } } },
            ),
    {
        Material::Lambertian(Lambertian::new(Color::new()))
    }
}

impl Lambertian {
    /// A diffuse material with the given reflectance.
    pub fn new(albedo: Color) -> (r: Self)
        ensures
            r == (Lambertian { albedo }),
    {
        Self { albedo }
    }

    /// Scatters toward the normal plus a random unit vector, originating at
    /// the hit point; the attenuation is the albedo, unconditionally.
    pub fn scatter(
        &self,
        r_in: &Ray,
        rec: &HitRecord,
        attenuation: &mut Color,
        scattered: &mut Ray,
        rng: &mut Rng64,
    ) -> (b: bool)
        ensures
            ({
                let (a, r, s) = spec_lambertian_scatter(*self, *rec, old(rng)@);
                b && *final(attenuation) == a && *final(scattered) == r && final(rng)@ == s
            }),
    {
        let mut scatter_direction: Vec3 = rec.normal.add(Vec3::random_unit_vector(rng));

        if scatter_direction.near_zero() {
            // A zero sum has no direction; fall back to the bare normal.
            scatter_direction = rec.normal;
        }
        *scattered = Ray::new(&rec.point, &scatter_direction);
        *attenuation = self.albedo;
        true
    }
}

impl Metal {
    /// A reflective material with the given reflectance.
    pub fn new(albedo: Color) -> (r: Self)
        ensures
            r == (Metal { albedo }),
    {
        Self { albedo }
    }

    /// Scatters along the mirror reflection of the incoming direction,
    /// originating at the hit point; the attenuation is the albedo.
    pub fn scatter(
        &self,
        r_in: &Ray,
        rec: &HitRecord,
        attenuation: &mut Color,
        scattered: &mut Ray,
        rng: &mut Rng64,
    ) -> (b: bool)
        ensures
            ({
                let (a, r) = spec_metal_scatter(*self, *r_in, *rec);
                b && *final(attenuation) == a && *final(scattered) == r && final(rng)@ == old(rng)@
            }),
    {
        let reflected = r_in.direction().reflect(&rec.normal);
        *scattered = Ray::new(&rec.point, &reflected);
        *attenuation = self.albedo;
        true
    }
}

} // verus!
