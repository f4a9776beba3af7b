//! The scalar type of the ray tracer: a fixed-point number holding a signed
//! count of millionths (six decimal places).
//!
//! Every arithmetic operation is total and exactly specified: multiplication
//! and division truncate toward zero at the sixth decimal, and results that
//! would leave the representable range saturate at its ends. The square root
//! is the exact integer square root at the same resolution.

use vstd::prelude::*;

verus! {

/// Number of fixed-point units per 1.0.
pub const SCALE: i64 = 1_000_000;

/// A scalar: `raw` counts millionths, so `raw = 1_500_000` is 1.5.
#[derive(Clone, Copy, PartialEq, Eq, Structural, Debug)]
pub struct Fx {
    pub raw: i64,
}

impl View for Fx {
    type V = int;

    open spec fn view(&self) -> int {
        self.raw as int
    }
}

/// Absolute value of a mathematical integer.
pub open spec fn iabs(x: int) -> int {
    if x >= 0 {
        x
    } else {
        -x
    }
}

/// Saturation of a mathematical integer into the `i64` range.
pub open spec fn sat64(x: int) -> int {
    if x < i64::MIN {
        i64::MIN as int
    } else if x > i64::MAX {
        i64::MAX as int
    } else {
        x
    }
}

/// Division truncating toward zero (the rounding used by all scalar ops).
pub open spec fn tdiv(a: int, b: int) -> int
    recommends
        b != 0,
{
    let q = iabs(a) / iabs(b);
    if (a >= 0) == (b >= 0) {
        q
    } else {
        -q
    }
}

/// Saturating fixed-point addition.
pub open spec fn fadd(a: int, b: int) -> int {
    sat64(a + b)
}

/// Saturating fixed-point subtraction.
pub open spec fn fsub(a: int, b: int) -> int {
    sat64(a - b)
}

/// Saturating fixed-point negation.
pub open spec fn fneg(a: int) -> int {
    sat64(-a)
}

/// Saturating fixed-point multiplication: the product rescaled by `SCALE`,
/// truncated toward zero.
pub open spec fn fmul(a: int, b: int) -> int {
    sat64(tdiv(a * b, SCALE as int))
}

/// Saturating fixed-point division, truncated toward zero.
pub open spec fn fdiv(a: int, b: int) -> int
    recommends
        b != 0,
{
    sat64(tdiv(a * SCALE, b))
}

/// The integer square root: the unique `r >= 0` with `r * r <= n < (r+1) * (r+1)`.
pub open spec fn isqrt(n: int) -> int
    recommends
        n >= 0,
{
    choose|r: int| r >= 0 && #[trigger] (r * r) <= n < (r + 1) * (r + 1)
}

/// Fixed-point square root: nonpositive inputs map to zero.
pub open spec fn fsqrt(a: int) -> int {
    if a <= 0 {
        0
    } else {
        isqrt(a * SCALE)
    }
}

/// Two integer square roots of the same number are equal.
pub proof fn lemma_isqrt_unique(n: int, r1: int, r2: int)
    requires
        r1 >= 0,
        r2 >= 0,
        r1 * r1 <= n < (r1 + 1) * (r1 + 1),
        r2 * r2 <= n < (r2 + 1) * (r2 + 1),
    ensures
        r1 == r2,
{
    assert(r1 == r2) by (nonlinear_arith)
        requires
            r1 >= 0,
            r2 >= 0,
            r1 * r1 <= n < (r1 + 1) * (r1 + 1),
            r2 * r2 <= n < (r2 + 1) * (r2 + 1),
    ;
}

/// A witness pins down `isqrt`.
pub proof fn lemma_isqrt_is(n: int, r: int)
    requires
        r >= 0,
        r * r <= n < (r + 1) * (r + 1),
    ensures
        isqrt(n) == r,
{
    assert(exists|q: int| q >= 0 && #[trigger] (q * q) <= n < (q + 1) * (q + 1)) by {
        assert(r >= 0 && r * r <= n < (r + 1) * (r + 1));
    }
    let q = choose|q: int| q >= 0 && #[trigger] (q * q) <= n < (q + 1) * (q + 1);
    lemma_isqrt_unique(n, q, r);
}

impl Fx {
    /// The scalar zero.
    pub fn zero() -> (r: Fx)
        ensures
            r@ == 0,
    {
        Fx { raw: 0 }
    }

    /// The scalar one.
    pub fn one() -> (r: Fx)
        ensures
            r@ == SCALE as int,
    {
        Fx { raw: SCALE }
    }

    /// The scalar holding exactly `raw` millionths.
    pub fn from_micros(raw: i64) -> (r: Fx)
        ensures
            r@ == raw as int,
    {
        Fx { raw }
    }

    /// The scalar holding the integer `n`.
    pub fn from_int(n: i64) -> (r: Fx)
        requires
            n * SCALE <= i64::MAX,
            i64::MIN <= n * SCALE,
        ensures
            r@ == n * SCALE,
    {
        Fx { raw: n * SCALE }
    }

    /// The largest representable scalar, standing in for positive infinity.
    pub fn max_value() -> (r: Fx)
        ensures
            r@ == i64::MAX as int,
    {
        Fx { raw: i64::MAX }
    }

    /// The smallest representable scalar, standing in for negative infinity.
    pub fn min_value() -> (r: Fx)
        ensures
            r@ == i64::MIN as int,
    {
        Fx { raw: i64::MIN }
    }

    pub fn lt(self, other: Fx) -> (r: bool)
        ensures
            r == (self@ < other@),
    {
        self.raw < other.raw
    }

    pub fn le(self, other: Fx) -> (r: bool)
        ensures
            r == (self@ <= other@),
    {
        self.raw <= other.raw
    }

    pub fn gt(self, other: Fx) -> (r: bool)
        ensures
            r == (self@ > other@),
    {
        self.raw > other.raw
    }

    pub fn ge(self, other: Fx) -> (r: bool)
        ensures
            r == (self@ >= other@),
    {
        self.raw >= other.raw
    }

    /// Saturating addition.
    pub fn add(self, other: Fx) -> (r: Fx)
        ensures
            r@ == fadd(self@, other@),
    {
        let s: i128 = self.raw as i128 + other.raw as i128;
        Fx { raw: sat_to_i64(s) }
    }

    /// Saturating subtraction.
    pub fn sub(self, other: Fx) -> (r: Fx)
        ensures
            r@ == fsub(self@, other@),
    {
        let s: i128 = self.raw as i128 - other.raw as i128;
        Fx { raw: sat_to_i64(s) }
    }

    /// Saturating negation.
    pub fn neg(self) -> (r: Fx)
        ensures
            r@ == fneg(self@),
    {
        let s: i128 = -(self.raw as i128);
        Fx { raw: sat_to_i64(s) }
    }

    /// Saturating multiplication, truncated toward zero at the sixth decimal.
    pub fn mul(self, other: Fx) -> (r: Fx)
        ensures
            r@ == fmul(self@, other@),
    {
        let a = self.raw as i128;
        let b = other.raw as i128;
        proof {
            assert(i128::MIN <= a * b <= i128::MAX) by (nonlinear_arith)
                requires
                    -0x8000_0000_0000_0000 <= a <= 0x7fff_ffff_ffff_ffff,
                    -0x8000_0000_0000_0000 <= b <= 0x7fff_ffff_ffff_ffff,
            ;
        }
        let p: i128 = a * b;
        let neg = p < 0;
        let mag: u128 = if p >= 0 {
            p as u128
        } else {
            proof {
                assert(a * b > i128::MIN) by (nonlinear_arith)
                    requires
                        -0x8000_0000_0000_0000 <= a <= 0x7fff_ffff_ffff_ffff,
                        -0x8000_0000_0000_0000 <= b <= 0x7fff_ffff_ffff_ffff,
                ;
            }
            (-p) as u128
        };
        let q: u128 = mag / (SCALE as u128);
        Fx { raw: sat_signed(neg, q) }
    }

    /// Saturating division, truncated toward zero at the sixth decimal.
    pub fn div(self, other: Fx) -> (r: Fx)
        requires
            other@ != 0,
        ensures
            r@ == fdiv(self@, other@),
    {
        let p: i128 = self.raw as i128 * (SCALE as i128);
        let neg = (p < 0) != (other.raw < 0);
        let pmag: u128 = if p >= 0 {
            p as u128
        } else {
            (-p) as u128
        };
        let bmag: u128 = if other.raw >= 0 {
            other.raw as u128
        } else {
            (-(other.raw as i128)) as u128
        };
        let q: u128 = pmag / bmag;
        proof {
            if p == 0 {
                assert(q == 0) by {
                    assert(pmag == 0);
                }
            }
            assert(tdiv(self@ * SCALE, other@) == if neg && q != 0 {
                -(q as int)
            } else {
                q as int
            });
        }
        Fx { raw: sat_signed(neg && q != 0, q) }
    }

    /// Fixed-point square root; nonpositive inputs give zero.
    pub fn sqrt(self) -> (r: Fx)
        ensures
            r@ == fsqrt(self@),
            r@ >= 0,
    {
        if self.raw <= 0 {
            Fx { raw: 0 }
        } else {
            let w: u128 = self.raw as u128;
            proof {
                assert(w * (SCALE as u128) < 0x1_0000_0000_0000_0000_0000_0000u128)
                    by (nonlinear_arith)
                    requires
                        0 < w < 0x8000_0000_0000_0000u128,
                ;
            }
            let n: u128 = w * (SCALE as u128);
            let r = isqrt_u128(n);
            proof {
                lemma_isqrt_is(n as int, r as int);
            }
            Fx { raw: r as i64 }
        }
    }

    /// Absolute value, saturating only at `i64::MIN`.
    pub fn abs(self) -> (r: Fx)
        ensures
            r@ == sat64(iabs(self@)),
    {
        if self.raw >= 0 {
            self
        } else {
            self.neg()
        }
    }
}

/// Saturates a wide intermediate into the scalar's range.
fn sat_to_i64(x: i128) -> (r: i64)
    ensures
        r as int == sat64(x as int),
{
    if x > i64::MAX as i128 {
        i64::MAX
    } else if x < i64::MIN as i128 {
        i64::MIN
    } else {
        x as i64
    }
}

/// Saturates a signed magnitude into the scalar's range.
fn sat_signed(neg: bool, mag: u128) -> (r: i64)
    ensures
        r as int == sat64(if neg { -(mag as int) } else { mag as int }),
{
    if neg {
        if mag >= 0x8000_0000_0000_0000u128 {
            i64::MIN
        } else {
            -(mag as i64)
        }
    } else {
        if mag > 0x7fff_ffff_ffff_ffffu128 {
            i64::MAX
        } else {
            mag as i64
        }
    }
}

/// Integer square root by binary search.
fn isqrt_u128(n: u128) -> (r: u128)
    requires
        n < 0x1_0000_0000_0000_0000_0000_0000u128,
    ensures
        r * r <= n < (r + 1) * (r + 1),
        r <= 0x1_0000_0000_0000u128,
{
    let mut lo: u128 = 0;
    let mut hi: u128 = 0x1_0000_0000_0000u128;
    proof {
        assert((0x1_0000_0000_0000u128 as int) * (0x1_0000_0000_0000u128 as int)
            == 0x1_0000_0000_0000_0000_0000_0000int) by (nonlinear_arith);
    }
    while lo < hi
        invariant
            lo <= hi,
            hi <= 0x1_0000_0000_0000u128,
            lo * lo <= n,
            n < (hi + 1) * (hi + 1),
        decreases hi - lo,
    {
        let mid: u128 = lo + (hi - lo + 1) / 2;
        proof {
            assert(lo < mid <= hi);
            assert(mid * mid <= 0x1_0000_0000_0000_0000_0000_0000u128) by (nonlinear_arith)
                requires
                    0 <= mid <= 0x1_0000_0000_0000u128,
            ;
        }
        if mid * mid <= n {
            lo = mid;
        } else {
            proof {
                assert(n < ((mid - 1) + 1) * ((mid - 1) + 1));
            }
            hi = mid - 1;
        }
    }
    lo
}

/// An integer square root exists for every nonnegative number.
pub proof fn lemma_isqrt_exists(n: int)
    requires
        n >= 0,
    ensures
        exists|r: int| r >= 0 && #[trigger] (r * r) <= n < (r + 1) * (r + 1),
    decreases n,
{
    if n == 0 {
        let z: int = 0;
        assert(z * z <= n < (z + 1) * (z + 1)) by (nonlinear_arith)
            requires
                n == 0,
                z == 0,
        ;
        assert(z >= 0 && z * z <= n < (z + 1) * (z + 1));
    } else {
        lemma_isqrt_exists(n - 1);
        let r = choose|r: int| r >= 0 && #[trigger] (r * r) <= n - 1 < (r + 1) * (r + 1);
        if n < (r + 1) * (r + 1) {
            assert(r * r <= n < (r + 1) * (r + 1));
        } else {
            assert(n == (r + 1) * (r + 1));
            assert((r + 1) * (r + 1) <= n < (r + 2) * (r + 2)) by (nonlinear_arith)
                requires
                    r >= 0,
                    n == (r + 1) * (r + 1),
            ;
            assert((r + 1) >= 0 && (r + 1) * (r + 1) <= n < ((r + 1) + 1) * ((r + 1) + 1));
        }
    }
}

/// The defining bracket of `isqrt` on nonnegative input.
pub proof fn lemma_isqrt_bracket(n: int)
    requires
        n >= 0,
    ensures
        isqrt(n) >= 0,
        isqrt(n) * isqrt(n) <= n,
        n < (isqrt(n) + 1) * (isqrt(n) + 1),
{
    lemma_isqrt_exists(n);
}

/// The integer square root is monotone.
pub proof fn lemma_isqrt_monotone(m: int, n: int)
    requires
        0 <= m <= n,
    ensures
        isqrt(m) <= isqrt(n),
{
    lemma_isqrt_bracket(m);
    lemma_isqrt_bracket(n);
    assert(isqrt(m) <= isqrt(n)) by (nonlinear_arith)
        requires
            isqrt(m) >= 0,
            isqrt(n) >= 0,
            isqrt(m) * isqrt(m) <= m,
            n < (isqrt(n) + 1) * (isqrt(n) + 1),
            m <= n,
    ;
}

/// A positive scalar has a positive square root.
pub proof fn lemma_fsqrt_pos(a: int)
    requires
        a > 0,
    ensures
        fsqrt(a) > 0,
{
    lemma_isqrt_bracket(a * SCALE);
    assert(a * SCALE >= SCALE) by (nonlinear_arith)
        requires
            a >= 1,
    ;
    let q = isqrt(a * SCALE);
    if q == 0 {
        assert(a * SCALE < (q + 1) * (q + 1));
        assert((q + 1) * (q + 1) == 1) by (nonlinear_arith)
            requires
                q == 0,
        ;
        assert(false);
    }
}

/// Truncating division by a positive divisor that divides exactly is exact.
pub proof fn lemma_tdiv_exact(a: int, b: int)
    requires
        b > 0,
        a % b == 0,
    ensures
        tdiv(a, b) * b == a,
{
    vstd::arithmetic::div_mod::lemma_fundamental_div_mod(a, b);
    let q = a / b;
    assert(a == b * q);
    if a >= 0 {
        assert(tdiv(a, b) == a / b);
        assert((a / b) * b == a) by (nonlinear_arith)
            requires
                a == b * (a / b),
        ;
    } else {
        let na = -a;
        vstd::arithmetic::div_mod::lemma_fundamental_div_mod(na, b);
        let m = na % b;
        assert(na == b * (na / b) + m && 0 <= m < b);
        assert(na == b * (-q)) by (nonlinear_arith)
            requires
                a == b * q,
                na == -a,
        ;
        assert(na / b == -q) by (nonlinear_arith)
            requires
                na == b * (na / b) + m,
                0 <= m < b,
                na == b * (-q),
                b > 0,
        ;
        assert(tdiv(a, b) == -(na / b));
        assert(q * b == a) by (nonlinear_arith)
            requires
                a == b * q,
        ;
    }
}

/// Truncating division by a positive divisor is monotone in the dividend.
pub proof fn lemma_tdiv_monotone(a: int, b: int, d: int)
    requires
        a <= b,
        d > 0,
    ensures
        tdiv(a, d) <= tdiv(b, d),
{
    if a >= 0 {
        vstd::arithmetic::div_mod::lemma_div_is_ordered(a, b, d);
    } else if b >= 0 {
        vstd::arithmetic::div_mod::lemma_div_pos_is_pos(-a, d);
        vstd::arithmetic::div_mod::lemma_div_pos_is_pos(b, d);
    } else {
        vstd::arithmetic::div_mod::lemma_div_is_ordered(-b, -a, d);
    }
}

/// Multiplying by one (the scale) is the identity, and by minus one the
/// negation, wherever no saturation occurs.
pub proof fn lemma_fmul_unit(a: int)
    requires
        iabs(a) <= i64::MAX,
    ensures
        fmul(a, SCALE as int) == a,
        fmul(SCALE as int, a) == a,
        fmul(a, -(SCALE as int)) == -a,
        fmul(-(SCALE as int), a) == -a,
{
    lemma_mul_cancel(a);
    lemma_mul_cancel(-a);
    assert(a * SCALE == SCALE * a && a * -(SCALE as int) == -(a * SCALE) && -(SCALE as int) * a
        == -(a * SCALE) && (-a) * SCALE == -(a * SCALE)) by (nonlinear_arith);
}

/// `tdiv(a * SCALE, SCALE) == a`.
proof fn lemma_mul_cancel(a: int)
    ensures
        tdiv(a * SCALE, SCALE as int) == a,
{
    if a >= 0 {
        assert(a * SCALE >= 0) by (nonlinear_arith)
            requires
                a >= 0,
        ;
        vstd::arithmetic::div_mod::lemma_div_multiples_vanish(a, SCALE as int);
    } else {
        assert(a * SCALE < 0 && -(a * SCALE) == (-a) * SCALE) by (nonlinear_arith)
            requires
                a < 0,
        ;
        vstd::arithmetic::div_mod::lemma_div_multiples_vanish(-a, SCALE as int);
    }
}

/// Multiplying by zero gives zero.
pub proof fn lemma_fmul_zero(a: int)
    ensures
        fmul(a, 0) == 0,
        fmul(0, a) == 0,
{
    assert(a * 0 == 0) by (nonlinear_arith);
    assert(0 * a == 0) by (nonlinear_arith);
    assert(iabs(0) / iabs(SCALE as int) == 0);
}

} // verus!
