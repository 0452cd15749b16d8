//! Fixed-point scalars with nine decimal digits after the point.
//!
//! Every quantity of the controller (speeds, angles, gains, time steps) is a
//! [`Scalar`]: a signed 64-bit count of billionths. Sums and products are
//! computed exactly in a wider integer, rounded toward zero and then
//! saturated, so each operation is total and the same on every machine.

use vstd::prelude::*;

verus! {

/// Raw units per whole unit.
pub const SCALE: i64 = 1_000_000_000;

/// Clamps a mathematical integer into the range of `i64`.
pub open spec fn saturate(v: int) -> int {
    if v < i64::MIN as int {
        i64::MIN as int
    } else if v > i64::MAX as int {
        i64::MAX as int
    } else {
        v
    }
}

/// The quotient of `n` by a positive `d`, rounded toward zero.
pub open spec fn trunc_div(n: int, d: int) -> int
    recommends
        d > 0,
{
    if n >= 0 {
        n / d
    } else {
        -((-n) / d)
    }
}

/// The fixed-point product of two raw values before saturation: the exact
/// product, brought back to scale and rounded toward zero.
pub open spec fn scaled_product(a: int, b: int) -> int {
    trunc_div(a * b, SCALE as int)
}

/// The fixed-point sum of two raw values.
pub open spec fn fixed_add(a: int, b: int) -> int {
    saturate(a + b)
}

/// The fixed-point difference of two raw values.
pub open spec fn fixed_sub(a: int, b: int) -> int {
    saturate(a - b)
}

/// The fixed-point product of two raw values.
pub open spec fn fixed_mul(a: int, b: int) -> int {
    saturate(scaled_product(a, b))
}

/// The fixed-point negation of a raw value.
pub open spec fn fixed_neg(a: int) -> int {
    saturate(-a)
}

/// The fixed-point magnitude of a raw value.
pub open spec fn fixed_abs(a: int) -> int {
    if a >= 0 {
        a
    } else {
        saturate(-a)
    }
}

/// `v` limited to the interval from `lo` to `hi`.
pub open spec fn clamp_between(v: int, lo: int, hi: int) -> int
    recommends
        lo <= hi,
{
    if v < lo {
        lo
    } else if v > hi {
        hi
    } else {
        v
    }
}

/// The product of two 64-bit values fits in 128 bits with room to spare.
pub proof fn lemma_product_fits(a: int, b: int)
    requires
        i64::MIN <= a <= i64::MAX,
        i64::MIN <= b <= i64::MAX,
    ensures
        -0x4000_0000_0000_0000_0000_0000_0000_0000 <= a * b
            <= 0x4000_0000_0000_0000_0000_0000_0000_0000,
{
    let m: int = 0x8000_0000_0000_0000;
    assert(-(m * m) <= a * b <= m * m) by (nonlinear_arith)
        requires
            -m <= a <= m,
            -m <= b <= m,
            m >= 0,
    ;
    assert(m * m == 0x4000_0000_0000_0000_0000_0000_0000_0000) by (nonlinear_arith)
        requires
            m == 0x8000_0000_0000_0000,
    ;
}

/// Rounding toward zero never moves a quotient away from zero, and loses
/// less than one unit.
pub proof fn lemma_trunc_div_bounds(n: int, d: int)
    requires
        d > 0,
    ensures
        n >= 0 ==> 0 <= trunc_div(n, d) && trunc_div(n, d) * d <= n < (trunc_div(n, d) + 1) * d,
        n <= 0 ==> trunc_div(n, d) <= 0 && (trunc_div(n, d) - 1) * d < n <= trunc_div(n, d) * d,
        trunc_div(-n, d) == -trunc_div(n, d),
{
    if n >= 0 {
        vstd::arithmetic::div_mod::lemma_fundamental_div_mod(n, d);
        vstd::arithmetic::div_mod::lemma_mod_bound(n, d);
        vstd::arithmetic::div_mod::lemma_div_pos_is_pos(n, d);
        assert(d * (n / d) == (n / d) * d) by (nonlinear_arith);
        assert(((n / d) + 1) * d == (n / d) * d + d) by (nonlinear_arith);
    }
    if n <= 0 {
        let m = -n;
        vstd::arithmetic::div_mod::lemma_fundamental_div_mod(m, d);
        vstd::arithmetic::div_mod::lemma_mod_bound(m, d);
        vstd::arithmetic::div_mod::lemma_div_pos_is_pos(m, d);
        assert(d * (m / d) == (m / d) * d) by (nonlinear_arith);
        assert((-(m / d) - 1) * d == -((m / d) * d) - d) by (nonlinear_arith);
        assert((-(m / d)) * d == -((m / d) * d)) by (nonlinear_arith);
        if n == 0 {
            assert(0int / d == 0) by (nonlinear_arith)
                requires
                    d > 0,
            ;
        }
    }
}

/// Multiplying by one changes nothing.
pub proof fn lemma_times_one(a: int)
    requires
        i64::MIN <= a <= i64::MAX,
    ensures
        fixed_mul(SCALE as int, a) == a,
        fixed_mul(a, SCALE as int) == a,
{
    let s: int = SCALE as int;
    assert(s * a == a * s) by (nonlinear_arith);
    lemma_trunc_div_bounds(a * s, s);
    if a >= 0 {
        assert(a * s >= 0) by (nonlinear_arith)
            requires
                a >= 0,
                s > 0,
        ;
        vstd::arithmetic::div_mod::lemma_div_by_multiple(a, s);
    } else {
        assert(-(a * s) == (-a) * s) by (nonlinear_arith);
        assert(a * s < 0) by (nonlinear_arith)
            requires
                a < 0,
                s > 0,
        ;
        vstd::arithmetic::div_mod::lemma_div_by_multiple(-a, s);
    }
}

/// A fixed-point number: `raw` counts billionths.
#[derive(Clone, Copy, Debug, PartialEq, Eq, Structural)]
pub struct Scalar {
    pub raw: i64,
}

impl View for Scalar {
    type V = int;

    open spec fn view(&self) -> int {
        self.raw as int
    }
}

impl Scalar {
    /// The scalar nearest to the mathematical integer `v`, in raw units.
    pub open spec fn saturated(v: int) -> Scalar {
        Scalar { raw: saturate(v) as i64 }
    }

    /// The saturated sum, as a scalar.
    pub open spec fn plus(self, rhs: Scalar) -> Scalar {
        Scalar::saturated(self@ + rhs@)
    }

    /// The saturated difference, as a scalar.
    pub open spec fn minus(self, rhs: Scalar) -> Scalar {
        Scalar::saturated(self@ - rhs@)
    }

    /// The rounded and saturated product, as a scalar.
    pub open spec fn times(self, rhs: Scalar) -> Scalar {
        Scalar::saturated(scaled_product(self@, rhs@))
    }

    /// The scalar with the given count of billionths.
    pub fn from_raw(raw: i64) -> (r: Scalar)
        ensures
            r@ == raw,
    {
        Scalar { raw }
    }

    /// The whole number `n`.
    pub fn from_int(n: i32) -> (r: Scalar)
        ensures
            r@ == n * SCALE,
    {
        Scalar { raw: (n as i64) * SCALE }
    }

    /// Zero.
    pub fn zero() -> (r: Scalar)
        ensures
            r@ == 0,
    {
        Scalar { raw: 0 }
    }

    /// One whole unit.
    pub fn one() -> (r: Scalar)
        ensures
            r@ == SCALE,
    {
        Scalar { raw: SCALE }
    }

    /// The count of billionths.
    pub fn raw(self) -> (r: i64)
        ensures
            r == self@,
    {
        self.raw
    }

    /// Whether the scalar is exactly zero.
    pub fn is_zero(self) -> (r: bool)
        ensures
            r <==> self@ == 0,
    {
        self.raw == 0
    }

    /// Brings a wide intermediate result back into range.
    pub fn from_wide(wide: i128) -> (r: Scalar)
        ensures
            r@ == saturate(wide as int),
            r == Scalar::saturated(wide as int),
    {
        if wide > i64::MAX as i128 {
            Scalar { raw: i64::MAX }
        } else if wide < i64::MIN as i128 {
            Scalar { raw: i64::MIN }
        } else {
            Scalar { raw: wide as i64 }
        }
    }

    /// The sum, saturated at the ends of the range.
    pub fn saturating_add(self, rhs: Scalar) -> (r: Scalar)
        ensures
            r@ == fixed_add(self@, rhs@),
            r == self.plus(rhs),
    {
        Scalar::from_wide(self.raw as i128 + rhs.raw as i128)
    }

    /// The difference, saturated at the ends of the range.
    pub fn saturating_sub(self, rhs: Scalar) -> (r: Scalar)
        ensures
            r@ == fixed_sub(self@, rhs@),
            r == self.minus(rhs),
    {
        Scalar::from_wide(self.raw as i128 - rhs.raw as i128)
    }

    /// The product, rounded toward zero to the nearest billionth and
    /// saturated at the ends of the range.
    pub fn saturating_mul(self, rhs: Scalar) -> (r: Scalar)
        ensures
            r@ == fixed_mul(self@, rhs@),
            r == self.times(rhs),
    {
        proof {
            lemma_product_fits(self@, rhs@);
        }
        let wide: i128 = (self.raw as i128) * (rhs.raw as i128);
        let quotient: i128 = wide / (SCALE as i128);
        Scalar::from_wide(quotient)
    }

    /// The negation; the most negative value maps to the most positive.
    pub fn saturating_neg(self) -> (r: Scalar)
        ensures
            r@ == fixed_neg(self@),
    {
        Scalar::from_wide(-(self.raw as i128))
    }

    /// The magnitude; the most negative value maps to the most positive.
    pub fn saturating_abs(self) -> (r: Scalar)
        ensures
            r@ == fixed_abs(self@),
            r@ >= 0,
    {
        if self.raw >= 0 {
            self
        } else {
            self.saturating_neg()
        }
    }

    /// The scalar limited to the interval from `lo` to `hi`.
    pub fn clamp(self, lo: Scalar, hi: Scalar) -> (r: Scalar)
        requires
            lo@ <= hi@,
        ensures
            r@ == clamp_between(self@, lo@, hi@),
            lo@ <= r@ <= hi@,
    {
        if self.raw < lo.raw {
            lo
        } else if self.raw > hi.raw {
            hi
        } else {
            self
        }
    }
}

} // verus!
