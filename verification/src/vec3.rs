//! Three-component vectors over the fixed-point scalar, used both as points
//! and as directions/displacements.
//!
//! Every executable operation has a spec-level counterpart (`sadd`, `sdot`,
//! `sreflect`, ...) and its contract says the result equals that counterpart
//! exactly, so algebraic laws can be proved once at the spec level.

use vstd::prelude::*;

verus! {

use crate::fixed::{Fx, fadd, fsub, fneg, fmul, fdiv, fsqrt, tdiv, iabs, isqrt, SCALE};
use crate::rng::{Rng64, next64, unit_micros};

/// A vector of three fixed-point scalars.
#[derive(Clone, Copy, PartialEq, Eq, Structural, Debug)]
pub struct Vec3 {
    pub x: Fx,
    pub y: Fx,
    pub z: Fx,
}

/// A point in space is represented by the same component type.
pub type Point3 = Vec3;

/// A vector built from raw millionth counts (spec-level constructor).
pub open spec fn sv(x: int, y: int, z: int) -> Vec3 {
    Vec3 { x: Fx { raw: x as i64 }, y: Fx { raw: y as i64 }, z: Fx { raw: z as i64 } }
}

/// Componentwise sum.
pub open spec fn sadd(u: Vec3, v: Vec3) -> Vec3 {
    sv(fadd(u.x@, v.x@), fadd(u.y@, v.y@), fadd(u.z@, v.z@))
}

/// Componentwise difference.
pub open spec fn ssub(u: Vec3, v: Vec3) -> Vec3 {
    sv(fsub(u.x@, v.x@), fsub(u.y@, v.y@), fsub(u.z@, v.z@))
}

/// Componentwise negation.
pub open spec fn sneg(v: Vec3) -> Vec3 {
    sv(fneg(v.x@), fneg(v.y@), fneg(v.z@))
}

/// Scaling by a scalar.
pub open spec fn smul(v: Vec3, k: int) -> Vec3 {
    sv(fmul(v.x@, k), fmul(v.y@, k), fmul(v.z@, k))
}

/// Componentwise product.
pub open spec fn smulv(u: Vec3, v: Vec3) -> Vec3 {
    sv(fmul(u.x@, v.x@), fmul(u.y@, v.y@), fmul(u.z@, v.z@))
}

/// Division by a scalar.
pub open spec fn sdivs(v: Vec3, k: int) -> Vec3
    recommends
        k != 0,
{
    sv(fdiv(v.x@, k), fdiv(v.y@, k), fdiv(v.z@, k))
}

/// Dot product: the three rescaled products summed left to right.
pub open spec fn sdot(u: Vec3, v: Vec3) -> int {
    fadd(fadd(fmul(u.x@, v.x@), fmul(u.y@, v.y@)), fmul(u.z@, v.z@))
}

/// Cross product.
pub open spec fn scross(u: Vec3, v: Vec3) -> Vec3 {
    sv(
        fsub(fmul(u.y@, v.z@), fmul(u.z@, v.y@)),
        fsub(fmul(u.z@, v.x@), fmul(u.x@, v.z@)),
        fsub(fmul(u.x@, v.y@), fmul(u.y@, v.x@)),
    )
}

/// Squared length.
pub open spec fn slen_sq(v: Vec3) -> int {
    sdot(v, v)
}

/// Length: the fixed-point square root of the squared length.
pub open spec fn slen(v: Vec3) -> int {
    fsqrt(slen_sq(v))
}

/// The vector rescaled to (approximately) unit length.
pub open spec fn snormalize(v: Vec3) -> Vec3
    recommends
        slen(v) > 0,
{
    sdivs(v, slen(v))
}

/// Whether every component is below the resolution of the scalar type: at
/// millionth resolution only an exact zero is "near zero".
pub open spec fn snear_zero(v: Vec3) -> bool {
    v.x@ == 0 && v.y@ == 0 && v.z@ == 0
}

/// Mirror reflection about a unit normal: `v - 2 (v . n) n`.
pub open spec fn sreflect(v: Vec3, n: Vec3) -> Vec3 {
    let d = sdot(v, n);
    ssub(v, smul(n, fadd(d, d)))
}

/// One draw of a vector with components uniform in `[-1, 1)`.
pub open spec fn sbox_sample(state: u64) -> (Vec3, u64) {
    let s1 = next64(state);
    let s2 = next64(s1);
    let s3 = next64(s2);
    (
        sv(
            fadd(-1_000_000, fmul(unit_micros(s1), 2_000_000)),
            fadd(-1_000_000, fmul(unit_micros(s2), 2_000_000)),
            fadd(-1_000_000, fmul(unit_micros(s3), 2_000_000)),
        ),
        s3,
    )
}

/// Rejection sampling of a unit vector: draw inside the cube until the draw
/// lands strictly inside the unit ball (and off zero), then rescale to unit
/// length; after the try budget runs out, fall back to the z axis.
pub open spec fn sruv(state: u64, tries: nat) -> (Vec3, u64)
    decreases tries,
{
    if tries == 0 {
        (sv(0, 0, SCALE as int), state)
    } else {
        let (v, s) = sbox_sample(state);
        let ls = slen_sq(v);
        if 0 < ls < SCALE {
            (sdivs(v, fsqrt(ls)), s)
        } else {
            sruv(s, (tries - 1) as nat)
        }
    }
}

/// The try budget of the rejection sampler; a draw succeeds with probability
/// about one half, so running out is astronomically unlikely.
pub const RUV_TRIES: u64 = 64;

/// A unit vector in the hemisphere around `normal`.
pub open spec fn shemisphere(normal: Vec3, state: u64) -> (Vec3, u64) {
    let (v, s) = sruv(state, RUV_TRIES as nat);
    if sdot(v, normal) > 0 {
        (v, s)
    } else {
        (sneg(v), s)
    }
}

impl Vec3 {
    /// The zero vector.
    pub fn new() -> (r: Self)
        ensures
            r == sv(0, 0, 0),
    {
        Vec3 { x: Fx::zero(), y: Fx::zero(), z: Fx::zero() }
    }

    /// The vector with the given components.
    pub fn build(x: Fx, y: Fx, z: Fx) -> (r: Self)
        ensures
            r == (Vec3 { x, y, z }),
    {
        Vec3 { x, y, z }
    }

    pub fn x(&self) -> (r: Fx)
        ensures
            r == self.x,
    {
        self.x
    }

    pub fn y(&self) -> (r: Fx)
        ensures
            r == self.y,
    {
        self.y
    }

    pub fn z(&self) -> (r: Fx)
        ensures
            r == self.z,
    {
        self.z
    }

    /// The length of the vector.
    pub fn length(&self) -> (r: Fx)
        ensures
            r@ == slen(*self),
            r@ >= 0,
    {
        self.length_squared().sqrt()
    }

    /// The squared length of the vector.
    pub fn length_squared(&self) -> (r: Fx)
        ensures
            r@ == slen_sq(*self),
    {
        Vec3::dot(self, self)
    }

    /// Returns true if all the vector's components are near zero (at this
    /// resolution: exactly zero).
    pub fn near_zero(&self) -> (r: bool)
        ensures
            r == snear_zero(*self),
    {
        self.x.raw == 0 && self.y.raw == 0 && self.z.raw == 0
    }

    /// Mirror reflection about `normal`: `self - 2 (self . normal) normal`.
    pub fn reflect(&self, normal: &Vec3) -> (r: Self)
        ensures
            r == sreflect(*self, *normal),
    {
        let d = Vec3::dot(self, normal);
        let t = d.add(d);
        self.sub(normal.mul(t))
    }

    /// A vector with components drawn uniformly from `[0, 1)`.
    pub fn random(rng: &mut Rng64) -> (r: Self)
        ensures
            ({
                let s1 = next64(old(rng)@);
                let s2 = next64(s1);
                let s3 = next64(s2);
                r == sv(unit_micros(s1), unit_micros(s2), unit_micros(s3)) && final(rng)@ == s3
            }),
    {
        let x = rng.next_unit();
        let y = rng.next_unit();
        let z = rng.next_unit();
        Vec3 { x, y, z }
    }

    /// A vector with components drawn uniformly from `[min, min + (max - min))`.
    pub fn random_range(min: Fx, max: Fx, rng: &mut Rng64) -> (r: Self)
        ensures
            ({
                let s1 = next64(old(rng)@);
                let s2 = next64(s1);
                let s3 = next64(s2);
                let range = fsub(max@, min@);
                r == sv(
                    fadd(min@, fmul(unit_micros(s1), range)),
                    fadd(min@, fmul(unit_micros(s2), range)),
                    fadd(min@, fmul(unit_micros(s3), range)),
                ) && final(rng)@ == s3
            }),
    {
        let range = max.sub(min);
        let ux = rng.next_unit();
        let uy = rng.next_unit();
        let uz = rng.next_unit();
        Vec3 {
            x: min.add(ux.mul(range)),
            y: min.add(uy.mul(range)),
            z: min.add(uz.mul(range)),
        }
    }

    /// Dot product.
    pub fn dot(u: &Vec3, v: &Vec3) -> (r: Fx)
        ensures
            r@ == sdot(*u, *v),
    {
        u.x.mul(v.x).add(u.y.mul(v.y)).add(u.z.mul(v.z))
    }

    /// Cross product.
    pub fn cross(u: &Vec3, v: &Vec3) -> (r: Self)
        ensures
            r == scross(*u, *v),
    {
        Vec3 {
            x: u.y.mul(v.z).sub(u.z.mul(v.y)),
            y: u.z.mul(v.x).sub(u.x.mul(v.z)),
            z: u.x.mul(v.y).sub(u.y.mul(v.x)),
        }
    }

    /// The vector rescaled to (approximately) unit length. The zero vector
    /// has no direction, so a positive length is a precondition.
    pub fn normalize(v: &Vec3) -> (r: Self)
        requires
            slen(*v) > 0,
        ensures
            r == snormalize(*v),
    {
        let len = v.length();
        v.div(len)
    }

    /// A pseudo-random vector of (approximately) unit length, uniformly
    /// distributed over directions by rejection sampling inside the unit ball.
    pub fn random_unit_vector(rng: &mut Rng64) -> (r: Self)
        ensures
            ({
                let (v, s) = sruv(old(rng)@, RUV_TRIES as nat);
                r == v && final(rng)@ == s
            }),
    {
        ruv_go(rng, RUV_TRIES)
    }

    /// A unit vector in the hemisphere defined by `normal`, for diffuse
    /// reflection.
    pub fn random_on_hemisphere(normal: &Vec3, rng: &mut Rng64) -> (r: Self)
        ensures
            ({
                let (v, s) = shemisphere(*normal, old(rng)@);
                r == v && final(rng)@ == s
            }),
    {
        let on_unit_sphere = Vec3::random_unit_vector(rng);
        if Vec3::dot(&on_unit_sphere, normal).gt(Fx::zero()) {
            on_unit_sphere
        } else {
            on_unit_sphere.neg()
        }
    }

    /// Componentwise sum.
    pub fn add(self, rhs: Self) -> (r: Self)
        ensures
            r == sadd(self, rhs),
    {
        Vec3 { x: self.x.add(rhs.x), y: self.y.add(rhs.y), z: self.z.add(rhs.z) }
    }

    /// Adds `rhs` into `self`.
    pub fn add_assign(&mut self, rhs: Self)
        ensures
            *final(self) == sadd(*old(self), rhs),
    {
        *self = self.add(rhs);
    }

    /// Componentwise difference.
    pub fn sub(self, rhs: Self) -> (r: Self)
        ensures
            r == ssub(self, rhs),
    {
        Vec3 { x: self.x.sub(rhs.x), y: self.y.sub(rhs.y), z: self.z.sub(rhs.z) }
    }

    /// Subtracts `rhs` from `self`.
    pub fn sub_assign(&mut self, rhs: Self)
        ensures
            *final(self) == ssub(*old(self), rhs),
    {
        *self = self.sub(rhs);
    }

    /// Componentwise negation.
    pub fn neg(self) -> (r: Self)
        ensures
            r == sneg(self),
    {
        Vec3 { x: self.x.neg(), y: self.y.neg(), z: self.z.neg() }
    }

    /// The vector scaled by `rhs`.
    pub fn mul(self, rhs: Fx) -> (r: Self)
        ensures
            r == smul(self, rhs@),
    {
        Vec3 { x: self.x.mul(rhs), y: self.y.mul(rhs), z: self.z.mul(rhs) }
    }

    /// Scales `self` by `rhs`.
    pub fn mul_assign(&mut self, rhs: Fx)
        ensures
            *final(self) == smul(*old(self), rhs@),
    {
        *self = self.mul(rhs);
    }

    /// Componentwise product.
    pub fn mul_vec(self, rhs: Self) -> (r: Self)
        ensures
            r == smulv(self, rhs),
    {
        Vec3 { x: self.x.mul(rhs.x), y: self.y.mul(rhs.y), z: self.z.mul(rhs.z) }
    }

    /// The vector divided by `rhs`.
    pub fn div(self, rhs: Fx) -> (r: Self)
        requires
            rhs@ != 0,
        ensures
            r == sdivs(self, rhs@),
    {
        Vec3 { x: self.x.div(rhs), y: self.y.div(rhs), z: self.z.div(rhs) }
    }

    /// Divides `self` by `rhs`.
    pub fn div_assign(&mut self, rhs: Fx)
        requires
            rhs@ != 0,
        ensures
            *final(self) == sdivs(*old(self), rhs@),
    {
        *self = self.div(rhs);
    }
}

/// A squared length is never negative: each squared component rescales to a
/// nonnegative value and the saturating sums keep the sign.
pub proof fn lemma_slen_sq_nonneg(v: Vec3)
    ensures
        slen_sq(v) >= 0,
{
    lemma_fmul_square_nonneg(v.x@);
    lemma_fmul_square_nonneg(v.y@);
    lemma_fmul_square_nonneg(v.z@);
}

/// A rescaled square is nonnegative.
proof fn lemma_fmul_square_nonneg(x: int)
    ensures
        fmul(x, x) >= 0,
{
    assert(x * x >= 0) by (nonlinear_arith);
    assert(crate::fixed::iabs(x * x) == x * x);
    vstd::arithmetic::div_mod::lemma_div_pos_is_pos(x * x, SCALE as int);
}

/// Rejection-sampling loop for `random_unit_vector`, bounded by `tries`.
fn ruv_go(rng: &mut Rng64, tries: u64) -> (r: Vec3)
    ensures
        ({
            let (v, s) = sruv(old(rng)@, tries as nat);
            r == v && final(rng)@ == s
        }),
    decreases tries,
{
    if tries == 0 {
        Vec3 { x: Fx::zero(), y: Fx::zero(), z: Fx::one() }
    } else {
        let v = Vec3::random_range(Fx::one().neg(), Fx::one(), rng);
        let ls = v.length_squared();
        if ls.gt(Fx::zero()) && ls.lt(Fx::one()) {
            proof {
                crate::fixed::lemma_fsqrt_pos(ls@);
            }
            let len = ls.sqrt();
            v.div(len)
        } else {
            ruv_go(rng, tries - 1)
        }
    }
}

/// Reflecting about a unit normal twice returns the original vector.
///
/// Stated for the unit normals the scalar type reflects exactly: the six
/// axis normals. A general fixed-point unit normal can lose the identity to
/// the truncation of the rescaled products (and a normal such as
/// `(0.6, 0.8, 0)` keeps it only for favorable `v`). The component bound
/// keeps the doubled projection from saturating.
pub proof fn lemma_reflect_involution(v: Vec3, n: Vec3)
    requires
        n == sv(SCALE as int, 0, 0) || n == sv(-(SCALE as int), 0, 0) || n == sv(
            0,
            SCALE as int,
            0,
        ) || n == sv(0, -(SCALE as int), 0) || n == sv(0, 0, SCALE as int) || n == sv(
            0,
            0,
            -(SCALE as int),
        ),
        iabs(v.x@) <= 0x1fff_ffff_ffff_ffff,
        iabs(v.y@) <= 0x1fff_ffff_ffff_ffff,
        iabs(v.z@) <= 0x1fff_ffff_ffff_ffff,
    ensures
        sdot(n, n) == SCALE as int,
        sreflect(sreflect(v, n), n) == v,
{
    crate::fixed::lemma_fmul_unit(SCALE as int);
    crate::fixed::lemma_fmul_unit(-(SCALE as int));
    crate::fixed::lemma_fmul_zero(0);
    crate::fixed::lemma_fmul_unit(v.x@);
    crate::fixed::lemma_fmul_unit(v.y@);
    crate::fixed::lemma_fmul_unit(v.z@);
    crate::fixed::lemma_fmul_zero(v.x@);
    crate::fixed::lemma_fmul_zero(v.y@);
    crate::fixed::lemma_fmul_zero(v.z@);
    let d = sdot(v, n);
    let t = fadd(d, d);
    crate::fixed::lemma_fmul_unit(t);
    let w = sreflect(v, n);
    crate::fixed::lemma_fmul_unit(w.x@);
    crate::fixed::lemma_fmul_unit(w.y@);
    crate::fixed::lemma_fmul_unit(w.z@);
    crate::fixed::lemma_fmul_zero(w.x@);
    crate::fixed::lemma_fmul_zero(w.y@);
    crate::fixed::lemma_fmul_zero(w.z@);
    let d2 = sdot(w, n);
    let t2 = fadd(d2, d2);
    crate::fixed::lemma_fmul_unit(t2);
    assert(sreflect(w, n) == v);
}

/// Normalizing a vector of positive length yields a vector of length exactly
/// one, for vectors whose length computation is exact: each squared
/// component rescales without remainder and without saturation, the squared
/// length is an exact square at scale, the length divides each rescaled
/// component, and the squared length divides each squared component. A
/// Pythagorean vector such as `(3, 4, 0)` satisfies all of this; for general
/// vectors truncation can leave the rescaled length just below one.
pub proof fn lemma_normalize_unit_length(v: Vec3)
    requires
        0 < slen_sq(v),
        (v.x@ * v.x@) % (SCALE as int) == 0,
        (v.y@ * v.y@) % (SCALE as int) == 0,
        (v.z@ * v.z@) % (SCALE as int) == 0,
        tdiv(v.x@ * v.x@, SCALE as int) + tdiv(v.y@ * v.y@, SCALE as int) + tdiv(
            v.z@ * v.z@,
            SCALE as int,
        ) <= i64::MAX,
        slen(v) * slen(v) == slen_sq(v) * SCALE,
        (v.x@ * SCALE) % slen(v) == 0,
        (v.y@ * SCALE) % slen(v) == 0,
        (v.z@ * SCALE) % slen(v) == 0,
        (v.x@ * v.x@) % slen_sq(v) == 0,
        (v.y@ * v.y@) % slen_sq(v) == 0,
        (v.z@ * v.z@) % slen_sq(v) == 0,
    ensures
        slen(v) > 0,
        slen(snormalize(v)) == SCALE as int,
{
    let ls = slen_sq(v);
    crate::fixed::lemma_fsqrt_pos(ls);
    let l = slen(v);
    lemma_sq_nonneg(v.x@);
    lemma_sq_nonneg(v.y@);
    lemma_sq_nonneg(v.z@);
    // The rescaled squares are exact, so the squared length times the scale
    // is the exact sum of squared components.
    crate::fixed::lemma_tdiv_exact(v.x@ * v.x@, SCALE as int);
    crate::fixed::lemma_tdiv_exact(v.y@ * v.y@, SCALE as int);
    crate::fixed::lemma_tdiv_exact(v.z@ * v.z@, SCALE as int);
    let f1 = tdiv(v.x@ * v.x@, SCALE as int);
    let f2 = tdiv(v.y@ * v.y@, SCALE as int);
    let f3 = tdiv(v.z@ * v.z@, SCALE as int);
    assert(f1 >= 0 && f2 >= 0 && f3 >= 0) by {
        vstd::arithmetic::div_mod::lemma_div_pos_is_pos(v.x@ * v.x@, SCALE as int);
        vstd::arithmetic::div_mod::lemma_div_pos_is_pos(v.y@ * v.y@, SCALE as int);
        vstd::arithmetic::div_mod::lemma_div_pos_is_pos(v.z@ * v.z@, SCALE as int);
    }
    assert(ls == f1 + f2 + f3);
    assert(ls * SCALE == v.x@ * v.x@ + v.y@ * v.y@ + v.z@ * v.z@) by (nonlinear_arith)
        requires
            ls == f1 + f2 + f3,
            f1 * SCALE == v.x@ * v.x@,
            f2 * SCALE == v.y@ * v.y@,
            f3 * SCALE == v.z@ * v.z@,
    ;
    // Each rescaled component divides exactly by the length.
    crate::fixed::lemma_tdiv_exact(v.x@ * SCALE, l);
    crate::fixed::lemma_tdiv_exact(v.y@ * SCALE, l);
    crate::fixed::lemma_tdiv_exact(v.z@ * SCALE, l);
    let q1 = tdiv(v.x@ * SCALE, l);
    let q2 = tdiv(v.y@ * SCALE, l);
    let q3 = tdiv(v.z@ * SCALE, l);
    // Squares of the quotients sum to the scale squared.
    assert(q1 * q1 * (l * l) == (v.x@ * v.x@) * (SCALE * SCALE)) by (nonlinear_arith)
        requires
            q1 * l == v.x@ * SCALE,
    ;
    assert(q2 * q2 * (l * l) == (v.y@ * v.y@) * (SCALE * SCALE)) by (nonlinear_arith)
        requires
            q2 * l == v.y@ * SCALE,
    ;
    assert(q3 * q3 * (l * l) == (v.z@ * v.z@) * (SCALE * SCALE)) by (nonlinear_arith)
        requires
            q3 * l == v.z@ * SCALE,
    ;
    assert((q1 * q1 + q2 * q2 + q3 * q3) * (l * l) == (l * l) * (SCALE * SCALE))
        by (nonlinear_arith)
        requires
            q1 * q1 * (l * l) == (v.x@ * v.x@) * (SCALE * SCALE),
            q2 * q2 * (l * l) == (v.y@ * v.y@) * (SCALE * SCALE),
            q3 * q3 * (l * l) == (v.z@ * v.z@) * (SCALE * SCALE),
            l * l == ls * SCALE,
            ls * SCALE == v.x@ * v.x@ + v.y@ * v.y@ + v.z@ * v.z@,
    ;
    assert(q1 * q1 + q2 * q2 + q3 * q3 == SCALE * SCALE) by (nonlinear_arith)
        requires
            (q1 * q1 + q2 * q2 + q3 * q3) * (l * l) == (l * l) * (SCALE * SCALE),
            l > 0,
    ;
    assert(iabs(q1) <= SCALE && iabs(q2) <= SCALE && iabs(q3) <= SCALE) by (nonlinear_arith)
        requires
            q1 * q1 + q2 * q2 + q3 * q3 == SCALE * SCALE,
            iabs(q1) == if q1 >= 0 { q1 } else { -q1 },
            iabs(q2) == if q2 >= 0 { q2 } else { -q2 },
            iabs(q3) == if q3 >= 0 { q3 } else { -q3 },
    ;
    let u = snormalize(v);
    assert(u.x@ == q1 && u.y@ == q2 && u.z@ == q3);
    // Each squared quotient divides exactly by the scale: q^2 * ls = c^2 * S,
    // and ls divides c^2, so q^2 is (c^2 / ls) * S.
    let m1 = v.x@ * v.x@ / ls;
    let m2 = v.y@ * v.y@ / ls;
    let m3 = v.z@ * v.z@ / ls;
    vstd::arithmetic::div_mod::lemma_fundamental_div_mod(v.x@ * v.x@, ls);
    vstd::arithmetic::div_mod::lemma_fundamental_div_mod(v.y@ * v.y@, ls);
    vstd::arithmetic::div_mod::lemma_fundamental_div_mod(v.z@ * v.z@, ls);
    assert(q1 * q1 == m1 * SCALE && q2 * q2 == m2 * SCALE && q3 * q3 == m3 * SCALE)
        by (nonlinear_arith)
        requires
            q1 * l == v.x@ * SCALE,
            q2 * l == v.y@ * SCALE,
            q3 * l == v.z@ * SCALE,
            l * l == ls * SCALE,
            v.x@ * v.x@ == ls * m1,
            v.y@ * v.y@ == ls * m2,
            v.z@ * v.z@ == ls * m3,
            ls > 0,
            SCALE == 1_000_000,
    ;
    crate::fixed::lemma_tdiv_exact(q1 * q1, SCALE as int);
    crate::fixed::lemma_tdiv_exact(q2 * q2, SCALE as int);
    crate::fixed::lemma_tdiv_exact(q3 * q3, SCALE as int);
    assert((q1 * q1) % (SCALE as int) == 0 && (q2 * q2) % (SCALE as int) == 0 && (q3 * q3) % (
    SCALE as int) == 0) by (nonlinear_arith)
        requires
            q1 * q1 == m1 * SCALE,
            q2 * q2 == m2 * SCALE,
            q3 * q3 == m3 * SCALE,
            SCALE == 1_000_000,
    ;
    assert(m1 + m2 + m3 == SCALE) by (nonlinear_arith)
        requires
            q1 * q1 + q2 * q2 + q3 * q3 == SCALE * SCALE,
            q1 * q1 == m1 * SCALE,
            q2 * q2 == m2 * SCALE,
            q3 * q3 == m3 * SCALE,
            SCALE == 1_000_000,
    ;
    assert(m1 >= 0 && m2 >= 0 && m3 >= 0) by (nonlinear_arith)
        requires
            q1 * q1 == m1 * SCALE,
            q2 * q2 == m2 * SCALE,
            q3 * q3 == m3 * SCALE,
            SCALE == 1_000_000,
    ;
    assert(slen_sq(u) == SCALE as int) by {
        lemma_sq_nonneg(q1);
        lemma_sq_nonneg(q2);
        lemma_sq_nonneg(q3);
        assert(tdiv(q1 * q1, SCALE as int) == m1 && tdiv(q2 * q2, SCALE as int) == m2 && tdiv(
            q3 * q3,
            SCALE as int,
        ) == m3) by (nonlinear_arith)
            requires
                tdiv(q1 * q1, SCALE as int) * SCALE == q1 * q1,
                tdiv(q2 * q2, SCALE as int) * SCALE == q2 * q2,
                tdiv(q3 * q3, SCALE as int) * SCALE == q3 * q3,
                q1 * q1 == m1 * SCALE,
                q2 * q2 == m2 * SCALE,
                q3 * q3 == m3 * SCALE,
                SCALE == 1_000_000,
        ;
    }
    assert(isqrt((SCALE as int) * (SCALE as int)) == SCALE as int) by {
        assert((SCALE as int) * (SCALE as int) < ((SCALE as int) + 1) * ((SCALE as int) + 1))
            by (nonlinear_arith);
        crate::fixed::lemma_isqrt_is((SCALE as int) * (SCALE as int), SCALE as int);
    }
}

/// A square is nonnegative.
proof fn lemma_sq_nonneg(x: int)
    ensures
        x * x >= 0,
{
    assert(x * x >= 0) by (nonlinear_arith);
}

} // verus!
