//! A sphere, intersected by solving the quadratic ray-sphere equation in its
//! half-discriminant form.

use vstd::prelude::*;

verus! {

use crate::fixed::{Fx, fadd, fsub, fmul, fdiv, fsqrt, tdiv, isqrt, SCALE};
use crate::hittable::{HitRecord, Hittable};
use crate::interval::{Interval, ssurrounds};
use crate::material::Material;
use crate::ray::{Ray, ray_at};
use crate::vec3::{Point3, Vec3, ssub, sdivs, slen_sq, sdot, sneg};

/// A sphere with a center, a nonnegative radius, and a material.
#[derive(Clone, Copy)]
pub struct Sphere {
    pub center: Point3,
    pub radius: Fx,
    pub material: Material,
}

/// Quadratic coefficient `a = |D|^2` for ray direction `D`.
pub open spec fn sph_a(r: Ray) -> int {
    slen_sq(r.dir)
}

/// Half-coefficient `h = D . (C - O)`.
pub open spec fn sph_h(s: Sphere, r: Ray) -> int {
    sdot(r.dir, ssub(s.center, r.origin))
}

/// Constant term `c = |C - O|^2 - radius^2`.
pub open spec fn sph_c(s: Sphere, r: Ray) -> int {
    fsub(slen_sq(ssub(s.center, r.origin)), fmul(s.radius@, s.radius@))
}

/// Discriminant `h^2 - a c`; negative means the ray misses the sphere.
pub open spec fn sph_disc(s: Sphere, r: Ray) -> int {
    fsub(fmul(sph_h(s, r), sph_h(s, r)), fmul(sph_a(r), sph_c(s, r)))
}

/// The smaller root `(h - sqrt(disc)) / a`: the entry point.
pub open spec fn sph_root1(s: Sphere, r: Ray) -> int {
    fdiv(fsub(sph_h(s, r), fsqrt(sph_disc(s, r))), sph_a(r))
}

/// The larger root `(h + sqrt(disc)) / a`: the exit point.
pub open spec fn sph_root2(s: Sphere, r: Ray) -> int {
    fdiv(fadd(sph_h(s, r), fsqrt(sph_disc(s, r))), sph_a(r))
}

/// The record reported for a hit at parameter `t`: the point along the ray,
/// the outward normal `(P - C) / radius` resolved against the ray direction,
/// and the sphere's material.
pub open spec fn sphere_record(s: Sphere, r: Ray, t: int) -> HitRecord {
    let p = ray_at(r, t);
    let outward = sdivs(ssub(p, s.center), s.radius@);
    let ff = sdot(r.dir, outward) < 0;
    HitRecord {
        point: p,
        normal: if ff {
            outward
        } else {
            sneg(outward)
        },
        material: s.material,
        t: Fx { raw: t as i64 },
        front_face: ff,
    }
}

/// The hit a sphere reports: none for a degenerate sphere or ray, none when
/// the discriminant is negative, otherwise the nearer root if it lies
/// strictly inside the search interval, else the farther root if it does,
/// else none.
pub open spec fn spec_sphere_hit(s: Sphere, r: Ray, ray_t: Interval) -> Option<HitRecord> {
    if s.radius@ <= 0 || sph_a(r) == 0 {
        None
    } else if sph_disc(s, r) < 0 {
        None
    } else if ssurrounds(ray_t, sph_root1(s, r)) {
        Some(sphere_record(s, r, sph_root1(s, r)))
    } else if ssurrounds(ray_t, sph_root2(s, r)) {
        Some(sphere_record(s, r, sph_root2(s, r)))
    } else {
        None
    }
}

impl Sphere {
    /// A sphere with the given center and material; a negative radius is
    /// clamped to zero (and a zero-radius sphere never reports hits).
    pub fn new(center: &Point3, radius: Fx, material: Material) -> (r: Self)
        ensures
            r.center == *center,
            r.radius@ == if radius@ < 0 {
                0int
            } else {
                radius@
            },
            r.material == material,
    {
        Self {
            center: *center,
            radius: if radius.lt(Fx::zero()) {
                Fx::zero()
            } else {
                radius
            },
            material,
        }
    }
}

impl Hittable for Sphere {
    open spec fn spec_hit(&self, r: Ray, ray_t: Interval) -> Option<HitRecord> {
        spec_sphere_hit(*self, r, ray_t)
    }

    fn hit(&self, r: &Ray, ray_t: &Interval, rec: &mut HitRecord) -> (b: bool) {
        // A degenerate (zero-radius) sphere never reports hits.
        if !self.radius.gt(Fx::zero()) {
            return false;
        }
        let oc: Vec3 = self.center.sub(r.origin());
        let a = r.direction().length_squared();
        // A ray with an exactly zero squared direction has no path.
        if a.raw == 0 {
            return false;
        }
        let h = Vec3::dot(&r.direction(), &oc);
        let c = oc.length_squared().sub(self.radius.mul(self.radius));

        let discriminant = h.mul(h).sub(a.mul(c));

        if discriminant.lt(Fx::zero()) {
            return false;
        }
        let sqrtd = discriminant.sqrt();
        let mut root = h.sub(sqrtd).div(a);
        if !ray_t.surrounds(root) {
            // The nearer root is outside the interval: try the farther one.
            root = h.add(sqrtd).div(a);
            if !ray_t.surrounds(root) {
                return false;
            }
        }
        // The distance the ray traveled to the hit.
        rec.t = root;
        // The point that was hit.
        rec.point = r.at(rec.t);
        // The normal pointing out from the hit point: unit length up to the
        // scalar's resolution, because the point lies on the sphere.
        let outward_normal = rec.point.sub(self.center).div(self.radius);
        // Resolve the stored normal and facing flag against the ray.
        rec.set_face_normal(r, &outward_normal);

        rec.material = self.material;

        true
    }
}

/// A hit is reported only strictly inside the search interval, at one of the
/// two roots.
pub proof fn lemma_sphere_hit_in_interval(s: Sphere, r: Ray, ray_t: Interval)
    ensures
        spec_sphere_hit(s, r, ray_t) matches Some(h) ==> ssurrounds(ray_t, h.t@) && (h.t@
            == sph_root1(s, r) || h.t@ == sph_root2(s, r)),
{
    if spec_sphere_hit(s, r, ray_t) is Some {
        let h = spec_sphere_hit(s, r, ray_t).unwrap();
        assert(h.t@ == sph_root1(s, r) || h.t@ == sph_root2(s, r));
    }
}

/// The entry root never exceeds the exit root.
pub proof fn lemma_roots_ordered(s: Sphere, r: Ray)
    requires
        sph_a(r) > 0,
    ensures
        sph_root1(s, r) <= sph_root2(s, r),
{
    let h = sph_h(s, r);
    let sq = fsqrt(sph_disc(s, r));
    assert(sq >= 0) by {
        if sph_disc(s, r) > 0 {
            crate::fixed::lemma_isqrt_bracket(sph_disc(s, r) * SCALE);
            assert(sph_disc(s, r) * SCALE >= 0) by (nonlinear_arith)
                requires
                    sph_disc(s, r) > 0,
            ;
        }
    }
    assert(fsub(h, sq) <= fadd(h, sq));
    assert((fsub(h, sq)) * SCALE <= (fadd(h, sq)) * SCALE) by (nonlinear_arith)
        requires
            fsub(h, sq) <= fadd(h, sq),
    ;
    crate::fixed::lemma_tdiv_monotone(fsub(h, sq) * SCALE, fadd(h, sq) * SCALE, sph_a(r));
}

/// Narrowing the search interval keeps an inner hit and discards an outer
/// one: against `[tmin, m2]` with `m2 <= m1`, a sphere reports the same hit
/// it reported against `[tmin, m1]` when that hit's `t` is below `m2`, and
/// nothing otherwise.
pub proof fn lemma_sphere_hit_narrow(s: Sphere, r: Ray, tmin: Fx, m1: Fx, m2: Fx)
    requires
        m2@ <= m1@,
    ensures
        ({
            let h1 = spec_sphere_hit(s, r, Interval { min: tmin, max: m1 });
            let h2 = spec_sphere_hit(s, r, Interval { min: tmin, max: m2 });
            match h1 {
                Some(a) => if a.t@ < m2@ {
                    h2 == Some(a)
                } else {
                    h2 is None
                },
                None => h2 is None,
            }
        }),
{
    if s.radius@ <= 0 || sph_a(r) == 0 || sph_disc(s, r) < 0 {
    } else {
        crate::vec3::lemma_slen_sq_nonneg(r.dir);
        lemma_roots_ordered(s, r);
    }
}

/// A negative discriminant (the ray misses the sphere) reports no hit.
pub proof fn lemma_miss_no_hit(s: Sphere, r: Ray, ray_t: Interval)
    requires
        sph_disc(s, r) < 0,
    ensures
        spec_sphere_hit(s, r, ray_t) is None,
{
}

/// A ray starting strictly inside the sphere (the computed constant term
/// makes `a * c` strictly negative) is never answered with the entry root:
/// against an interval of nonnegative distances the entry root is already
/// behind the origin, so the report is the exit root or nothing.
pub proof fn lemma_inside_hits_exit_root(s: Sphere, r: Ray, ray_t: Interval)
    requires
        s.radius@ > 0,
        sph_a(r) > 0,
        fmul(sph_a(r), sph_c(s, r)) < 0,
        crate::fixed::iabs(sph_h(s, r)) <= 1_000_000_000_000,
        ray_t.min@ >= 0,
    ensures
        sph_root1(s, r) <= 0,
        spec_sphere_hit(s, r, ray_t) is None || spec_sphere_hit(s, r, ray_t) == Some(
            sphere_record(s, r, sph_root2(s, r)),
        ),
        spec_sphere_hit(s, r, ray_t) matches Some(h) ==> h.t@ == sph_root2(s, r) && h.t@ > 0,
        ssurrounds(ray_t, sph_root2(s, r)) ==> spec_sphere_hit(s, r, ray_t) == Some(
            sphere_record(s, r, sph_root2(s, r)),
        ),
{
    let h = sph_h(s, r);
    let hh = fmul(h, h);
    let ac = fmul(sph_a(r), sph_c(s, r));
    let disc = sph_disc(s, r);
    crate::vec3::lemma_slen_sq_nonneg(r.dir);
    assert(h * h >= 0) by (nonlinear_arith);
    assert(hh >= 0) by {
        vstd::arithmetic::div_mod::lemma_div_pos_is_pos(h * h, SCALE as int);
    }
    assert(disc >= hh + 1 || disc == i64::MAX);
    assert(disc > 0);
    let sq = fsqrt(disc);
    crate::fixed::lemma_isqrt_bracket(disc * SCALE);
    assert(disc * SCALE > 0) by (nonlinear_arith)
        requires
            disc > 0,
    ;
    // The square root of the discriminant is at least h, so the entry root's
    // numerator is nonpositive.
    assert(sq >= h) by {
        if h > 0 {
            assert(h * h <= 1_000_000_000_000i64 * 1_000_000_000_000i64) by (nonlinear_arith)
                requires
                    0 < h <= 1_000_000_000_000,
            ;
            if disc == i64::MAX {
                assert(disc * SCALE > h * h) by (nonlinear_arith)
                    requires
                        disc == i64::MAX,
                        h * h <= 1_000_000_000_000i64 * 1_000_000_000_000i64,
                ;
            } else {
                vstd::arithmetic::div_mod::lemma_fundamental_div_mod(h * h, SCALE as int);
                assert(hh == (h * h) / (SCALE as int)) by {
                    assert(crate::fixed::iabs(h * h) == h * h);
                }
                assert(disc * SCALE >= (hh + 1) * SCALE) by (nonlinear_arith)
                    requires
                        disc >= hh + 1,
                ;
                assert((hh + 1) * SCALE > h * h) by (nonlinear_arith)
                    requires
                        h * h == SCALE * hh + (h * h) % (SCALE as int),
                        (h * h) % (SCALE as int) < SCALE,
                ;
            }
            crate::fixed::lemma_isqrt_monotone(h * h, disc * SCALE - 1);
            assert(h * h < (h + 1) * (h + 1)) by (nonlinear_arith)
                requires
                    h >= 0,
            ;
            crate::fixed::lemma_isqrt_is(h * h, h);
            assert(isqrt(disc * SCALE - 1) <= isqrt(disc * SCALE)) by {
                crate::fixed::lemma_isqrt_monotone(disc * SCALE - 1, disc * SCALE);
            }
        } else {
            assert(sq >= 0);
        }
    }
    assert(fsub(h, sq) <= 0);
    assert(sph_root1(s, r) <= 0) by {
        let num = fsub(h, sq);
        assert(num * SCALE <= 0) by (nonlinear_arith)
            requires
                num <= 0,
        ;
        assert(tdiv(num * SCALE, sph_a(r)) <= 0) by {
            crate::fixed::lemma_tdiv_monotone(num * SCALE, 0, sph_a(r));
            assert(tdiv(0, sph_a(r)) == 0) by {
                assert(crate::fixed::iabs(0int) / crate::fixed::iabs(sph_a(r)) == 0);
            }
        }
    }
    assert(!ssurrounds(ray_t, sph_root1(s, r)));
}

} // verus!
