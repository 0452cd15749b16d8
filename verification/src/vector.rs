//! Two- and three-component vectors of fixed-point scalars.

use crate::scalar::{lemma_product_fits, lemma_trunc_div_bounds, trunc_div, Scalar, SCALE};
use crate::sqrt::{ceil_sqrt, isqrt_ceil, lemma_square_monotonic};
use vstd::prelude::*;

verus! {

/// A vector in the horizontal input plane.
#[derive(Clone, Copy, Debug, PartialEq, Eq, Structural)]
pub struct Vector2 {
    pub x: Scalar,
    pub y: Scalar,
}

/// A vector in world space; `y` points up.
#[derive(Clone, Copy, Debug, PartialEq, Eq, Structural)]
pub struct Vector3 {
    pub x: Scalar,
    pub y: Scalar,
    pub z: Scalar,
}

/// What becomes of one component `x` of a vector of measured length `len`
/// when the vector is brought to length `max`: the component is multiplied
/// by `max`, divided by `len` and rounded toward zero. It keeps its sign,
/// its square changes at most by the factor `max^2 / len^2`, it does not
/// grow where the vector is shortened, and it stays within `max` where it
/// was within `len`.
pub proof fn lemma_rescaled_component(x: int, max: int, len: int)
    requires
        0 <= max,
        0 < len,
    ensures
        x >= 0 ==> 0 <= trunc_div(x * max, len),
        x <= 0 ==> trunc_div(x * max, len) <= 0,
        trunc_div(x * max, len) * trunc_div(x * max, len) * (len * len) <= (x * x) * (max
            * max),
        max <= len && x >= 0 ==> trunc_div(x * max, len) <= x,
        max <= len && x <= 0 ==> x <= trunc_div(x * max, len),
        -len <= x <= len ==> -max <= trunc_div(x * max, len) <= max,
{
    let n = x * max;
    let q = trunc_div(n, len);
    lemma_trunc_div_bounds(n, len);
    if x >= 0 {
        assert(0 <= n) by (nonlinear_arith)
            requires
                n == x * max,
                x >= 0,
                0 <= max,
        ;
        if max <= len {
            assert(n <= x * len) by (nonlinear_arith)
                requires
                    n == x * max,
                    x >= 0,
                    0 <= max <= len,
            ;
            assert(q <= x) by (nonlinear_arith)
                requires
                    q * len <= n,
                    n <= x * len,
                    len > 0,
            ;
        }
        if x <= len {
            assert(n <= max * len) by (nonlinear_arith)
                requires
                    n == x * max,
                    0 <= x <= len,
                    0 <= max,
            ;
            assert(q <= max) by (nonlinear_arith)
                requires
                    q * len <= n,
                    n <= max * len,
                    len > 0,
            ;
        }
        lemma_square_monotonic(q * len, n);
    } else {
        assert(n <= 0) by (nonlinear_arith)
            requires
                n == x * max,
                x < 0,
                0 <= max,
        ;
        if max <= len {
            assert(x * len <= n) by (nonlinear_arith)
                requires
                    n == x * max,
                    x < 0,
                    0 <= max <= len,
            ;
            assert(q >= x) by (nonlinear_arith)
                requires
                    n <= q * len,
                    x * len <= n,
                    len > 0,
            ;
        }
        if -len <= x {
            assert(-(max * len) <= n) by (nonlinear_arith)
                requires
                    n == x * max,
                    -len <= x < 0,
                    0 <= max,
            ;
            assert(-max <= q) by (nonlinear_arith)
                requires
                    n <= q * len,
                    -(max * len) <= n,
                    len > 0,
            ;
        }
        assert(q * len <= 0) by (nonlinear_arith)
            requires
                q <= 0,
                len > 0,
        ;
        lemma_square_monotonic(-(q * len), -n);
        assert((-(q * len)) * (-(q * len)) == (q * len) * (q * len)) by (nonlinear_arith);
        assert((-n) * (-n) == n * n) by (nonlinear_arith);
    }
    assert((q * len) * (q * len) == q * q * (len * len)) by (nonlinear_arith);
    assert(n * n == (x * x) * (max * max)) by (nonlinear_arith)
        requires
            n == x * max,
    ;
}

/// Two components rescaled from a measured length that is not too short
/// make a vector no longer than `max`.
pub proof fn lemma_rescaled_length(x: int, y: int, max: int, len: int)
    requires
        0 <= max,
        0 < len,
        x * x + y * y <= len * len,
    ensures
        trunc_div(x * max, len) * trunc_div(x * max, len) + trunc_div(y * max, len) * trunc_div(
            y * max,
            len,
        ) <= max * max,
{
    let qx = trunc_div(x * max, len);
    let qy = trunc_div(y * max, len);
    let l2 = len * len;
    let m2 = max * max;
    lemma_rescaled_component(x, max, len);
    lemma_rescaled_component(y, max, len);
    assert(l2 > 0 && m2 >= 0) by (nonlinear_arith)
        requires
            l2 == len * len,
            m2 == max * max,
            len > 0,
    ;
    assert(qx * qx * l2 + qy * qy * l2 <= (x * x) * m2 + (y * y) * m2);
    assert((x * x) * m2 + (y * y) * m2 == (x * x + y * y) * m2) by (nonlinear_arith);
    assert((x * x + y * y) * m2 <= l2 * m2) by (nonlinear_arith)
        requires
            x * x + y * y <= l2,
            m2 >= 0,
    ;
    assert(qx * qx + qy * qy <= m2) by (nonlinear_arith)
        requires
            qx * qx * l2 + qy * qy * l2 <= l2 * m2,
            l2 > 0,
    ;
}

/// Squaring keeps a strict order of natural numbers.
proof fn lemma_square_strictly_monotonic(a: int, b: int)
    requires
        0 <= a < b,
    ensures
        a * a < b * b,
{
    assert(a * a < b * b) by (nonlinear_arith)
        requires
            0 <= a < b,
    ;
}

/// How little a rescaled component loses to rounding: its magnitude `a`,
/// raised by one, times `len` passes the magnitude of `x` times `max`.
pub proof fn lemma_rescaled_component_reach(x: int, max: int, len: int)
    requires
        0 <= max,
        0 < len,
        -len <= x <= len,
    ensures
        ({
            let q = trunc_div(x * max, len);
            let a = if q >= 0 {
                q
            } else {
                -q
            };
            &&& 0 <= a <= max
            &&& a * a == q * q
            &&& (a + 1) * (a + 1) * (len * len) > (x * x) * (max * max)
        }),
{
    let n = x * max;
    let q = trunc_div(n, len);
    let a = if q >= 0 {
        q
    } else {
        -q
    };
    let big = if x >= 0 {
        x
    } else {
        -x
    };
    lemma_trunc_div_bounds(n, len);
    lemma_rescaled_component(x, max, len);
    assert(a * a == q * q) by (nonlinear_arith)
        requires
            a == q || a == -q,
    ;
    assert(big * max == n || big * max == -n) by (nonlinear_arith)
        requires
            n == x * max,
            big == x || big == -x,
    ;
    assert(0 <= big * max) by (nonlinear_arith)
        requires
            0 <= big,
            0 <= max,
    ;
    assert((q + 1) * len == q * len + len && (q - 1) * len == q * len - len) by (nonlinear_arith);
    assert((a + 1) * len == a * len + len) by (nonlinear_arith);
    assert(a * len == q * len || a * len == -(q * len)) by (nonlinear_arith)
        requires
            a == q || a == -q,
    ;
    assert(big * max < (a + 1) * len);
    lemma_square_strictly_monotonic(big * max, (a + 1) * len);
    assert((big * max) * (big * max) == (x * x) * (max * max)) by (nonlinear_arith)
        requires
            big == x || big == -x,
    ;
    assert(((a + 1) * len) * ((a + 1) * len) == (a + 1) * (a + 1) * (len * len))
        by (nonlinear_arith);
}

/// Two components rescaled from a length measured to within one unit, and
/// not shorter than `max`, make a vector less than four units short of
/// `max`.
pub proof fn lemma_rescaled_reach(x: int, y: int, max: int, len: int)
    requires
        9 <= max <= len,
        (len - 1) * (len - 1) < x * x + y * y <= len * len,
    ensures
        trunc_div(x * max, len) * trunc_div(x * max, len) + trunc_div(y * max, len) * trunc_div(
            y * max,
            len,
        ) > (max - 4) * (max - 4),
{
    let qx = trunc_div(x * max, len);
    let qy = trunc_div(y * max, len);
    let a = if qx >= 0 {
        qx
    } else {
        -qx
    };
    let b = if qy >= 0 {
        qy
    } else {
        -qy
    };
    let l2 = len * len;
    let m2 = max * max;
    let n = x * x + y * y;
    assert(x * x >= 0 && y * y >= 0) by (nonlinear_arith);
    assert(-len <= x <= len) by (nonlinear_arith)
        requires
            x * x <= len * len,
            len > 0,
    ;
    assert(-len <= y <= len) by (nonlinear_arith)
        requires
            y * y <= len * len,
            len > 0,
    ;
    lemma_rescaled_component_reach(x, max, len);
    lemma_rescaled_component_reach(y, max, len);
    let t = (a + 1) * (a + 1) + (b + 1) * (b + 1);
    assert(t * l2 == (a + 1) * (a + 1) * l2 + (b + 1) * (b + 1) * l2) by (nonlinear_arith)
        requires
            t == (a + 1) * (a + 1) + (b + 1) * (b + 1),
    ;
    assert(n * m2 == (x * x) * m2 + (y * y) * m2) by (nonlinear_arith)
        requires
            n == x * x + y * y,
    ;
    assert(t * l2 > n * m2);
    assert(n * m2 >= ((len - 1) * (len - 1)) * m2) by (nonlinear_arith)
        requires
            n > (len - 1) * (len - 1),
            m2 == max * max,
    ;
    assert((len - 1) * max >= (max - 1) * len) by (nonlinear_arith)
        requires
            len >= max,
    ;
    assert((max - 1) * len >= 0) by (nonlinear_arith)
        requires
            max >= 1,
            len > 0,
    ;
    lemma_square_monotonic((max - 1) * len, (len - 1) * max);
    assert(((len - 1) * max) * ((len - 1) * max) == ((len - 1) * (len - 1)) * m2)
        by (nonlinear_arith)
        requires
            m2 == max * max,
    ;
    assert(((max - 1) * len) * ((max - 1) * len) == ((max - 1) * (max - 1)) * l2)
        by (nonlinear_arith)
        requires
            l2 == len * len,
    ;
    assert(t > (max - 1) * (max - 1)) by (nonlinear_arith)
        requires
            t * l2 > ((max - 1) * (max - 1)) * l2,
            l2 > 0,
    ;
    assert(t == a * a + b * b + 2 * a + 2 * b + 2) by (nonlinear_arith)
        requires
            t == (a + 1) * (a + 1) + (b + 1) * (b + 1),
    ;
    assert((max - 1) * (max - 1) == max * max - 2 * max + 1) by (nonlinear_arith);
    assert((max - 4) * (max - 4) == max * max - 8 * max + 16) by (nonlinear_arith);
}

impl Vector2 {
    /// The square of the length, in squared raw units.
    pub open spec fn length_squared(self) -> int {
        self.x@ * self.x@ + self.y@ * self.y@
    }

    /// The factor by which the vector is magnified before its length is
    /// measured, so that the measure is fine enough for short vectors too:
    /// `2^31` where both components are below `2^31` in magnitude, one
    /// otherwise.
    pub open spec fn magnification(self) -> int {
        if -0x8000_0000 < self.x@ < 0x8000_0000 && -0x8000_0000 < self.y@ < 0x8000_0000 {
            0x8000_0000
        } else {
            1
        }
    }

    /// The length of the magnified vector in raw units, rounded up.
    pub open spec fn measured_length(self) -> int {
        let k = self.magnification();
        ceil_sqrt(((self.x@ * k) * (self.x@ * k) + (self.y@ * k) * (self.y@ * k)) as nat) as int
    }

    /// The vector is as long as one, to within four raw units, and no
    /// longer.
    pub open spec fn is_unit(self) -> bool {
        (SCALE - 4) * (SCALE - 4) < self.length_squared() <= SCALE * SCALE
    }

    /// The vector with the given components.
    pub fn new(x: Scalar, y: Scalar) -> (r: Vector2)
        ensures
            r.x == x,
            r.y == y,
    {
        Vector2 { x, y }
    }

    /// The zero vector.
    pub fn zero() -> (r: Vector2)
        ensures
            r.x@ == 0,
            r.y@ == 0,
    {
        Vector2 { x: Scalar::zero(), y: Scalar::zero() }
    }

    /// Whether both components are exactly zero.
    pub fn is_zero(self) -> (r: bool)
        ensures
            r <==> (self.x@ == 0 && self.y@ == 0),
    {
        self.x.is_zero() && self.y.is_zero()
    }

    /// The vector brought to the length `max`: each component is magnified,
    /// multiplied by `max`, divided by the measured length and rounded
    /// toward zero.
    pub open spec fn rescaled(self, max: int) -> Vector2 {
        let k = self.magnification();
        Vector2 {
            x: Scalar::saturated(trunc_div(self.x@ * k * max, self.measured_length())),
            y: Scalar::saturated(trunc_div(self.y@ * k * max, self.measured_length())),
        }
    }

    /// The vector itself where it is no longer than `max`, else the vector
    /// of the same direction shortened to `max`.
    pub open spec fn shortened(self, max: Scalar) -> Vector2 {
        if self.length_squared() <= max@ * max@ {
            self
        } else {
            self.rescaled(max@)
        }
    }

    /// The vector of the same direction and length one, or the zero vector
    /// where the vector is zero.
    pub open spec fn normalized(self) -> Vector2 {
        if self.x@ == 0 && self.y@ == 0 {
            self
        } else {
            self.rescaled(SCALE as int)
        }
    }

    /// Brings a vector that is not zero to the length `max`. The result is
    /// never longer than `max`, and less than four raw units shorter where
    /// the vector itself is not shorter than `max`.
    fn rescale(self, max: Scalar) -> (r: Vector2)
        requires
            max@ >= 0,
            !(self.x@ == 0 && self.y@ == 0),
        ensures
            r == self.rescaled(max@),
            r.length_squared() <= max@ * max@,
            9 <= max@ <= self.measured_length() ==> r.length_squared() > (max@ - 4) * (max@ - 4),
            self.measured_length() >= 0x8000_0000,
            self.measured_length() * self.measured_length() >= self.magnification()
                * self.magnification() * self.length_squared(),
    {
        let x: i128 = self.x.raw as i128;
        let y: i128 = self.y.raw as i128;
        let m: i128 = max.raw as i128;
        let small: bool = -0x8000_0000 < x && x < 0x8000_0000 && -0x8000_0000 < y && y
            < 0x8000_0000;
        let k: i128 = if small {
            0x8000_0000
        } else {
            1
        };
        let wide_x: i128 = x * k;
        let wide_y: i128 = y * k;
        proof {
            lemma_product_fits(wide_x as int, wide_x as int);
            lemma_product_fits(wide_y as int, wide_y as int);
            lemma_product_fits(wide_x as int, m as int);
            lemma_product_fits(wide_y as int, m as int);
            assert(wide_x * wide_x >= 0 && (wide_x != 0 ==> wide_x * wide_x > 0))
                by (nonlinear_arith);
            assert(wide_y * wide_y >= 0 && (wide_y != 0 ==> wide_y * wide_y > 0))
                by (nonlinear_arith);
        }
        let length_sq: u128 = (wide_x * wide_x) as u128 + (wide_y * wide_y) as u128;
        let len: i128 = isqrt_ceil(length_sq) as i128;
        proof {
            assert(wide_x * wide_x <= len * len && wide_y * wide_y <= len * len);
            assert(-len <= wide_x <= len) by (nonlinear_arith)
                requires
                    wide_x * wide_x <= len * len,
                    len > 0,
            ;
            assert(-len <= wide_y <= len) by (nonlinear_arith)
                requires
                    wide_y * wide_y <= len * len,
                    len > 0,
            ;
            lemma_rescaled_component(wide_x as int, m as int, len as int);
            lemma_rescaled_component(wide_y as int, m as int, len as int);
            lemma_rescaled_length(wide_x as int, wide_y as int, m as int, len as int);
            if 9 <= m && m <= len {
                lemma_rescaled_reach(wide_x as int, wide_y as int, m as int, len as int);
            }
            assert((x * k) * (x * k) + (y * k) * (y * k) == k * k * (x * x + y * y))
                by (nonlinear_arith);
        }
        let qx: i128 = (wide_x * m) / len;
        let qy: i128 = (wide_y * m) / len;
        Vector2 { x: Scalar { raw: qx as i64 }, y: Scalar { raw: qy as i64 } }
    }

    /// Limits the length of the vector to `max`, keeping its direction. A
    /// vector that is shortened comes out less than four raw units short of
    /// `max`.
    pub fn clamp_length_max(self, max: Scalar) -> (r: Vector2)
        requires
            max@ >= 0,
        ensures
            r == self.shortened(max),
            r.length_squared() <= max@ * max@,
            self.length_squared() > max@ * max@ && max@ >= 9 ==> r.length_squared() > (max@ - 4)
                * (max@ - 4),
    {
        let x: i128 = self.x.raw as i128;
        let y: i128 = self.y.raw as i128;
        let m: i128 = max.raw as i128;
        proof {
            lemma_product_fits(x as int, x as int);
            lemma_product_fits(y as int, y as int);
            lemma_product_fits(m as int, m as int);
            assert(x * x >= 0) by (nonlinear_arith);
            assert(y * y >= 0) by (nonlinear_arith);
            assert(m * m >= 0) by (nonlinear_arith);
        }
        let length_sq: u128 = (x * x) as u128 + (y * y) as u128;
        let max_sq: u128 = (m * m) as u128;
        if length_sq <= max_sq {
            self
        } else {
            let r = self.rescale(max);
            proof {
                let k = self.magnification();
                let len = self.measured_length();
                assert(len * len > m * m) by (nonlinear_arith)
                    requires
                        len * len >= k * k * (x * x + y * y),
                        x * x + y * y > m * m,
                        k >= 1,
                        m * m >= 0,
                ;
                if len < m {
                    lemma_square_monotonic(len, m as int);
                }
            }
            r
        }
    }

    /// Brings the vector to length one, keeping its direction; the zero
    /// vector stays zero.
    pub fn normalize_or_zero(self) -> (r: Vector2)
        ensures
            r == self.normalized(),
            r.length_squared() <= SCALE * SCALE,
            !(self.x@ == 0 && self.y@ == 0) ==> r.is_unit(),
    {
        if self.is_zero() {
            self
        } else {
            self.rescale(Scalar::one())
        }
    }
}

impl Vector3 {
    /// The vector with the given components.
    pub fn new(x: Scalar, y: Scalar, z: Scalar) -> (r: Vector3)
        ensures
            r.x == x,
            r.y == y,
            r.z == z,
    {
        Vector3 { x, y, z }
    }

    /// The zero vector.
    pub fn zero() -> (r: Vector3)
        ensures
            r.x@ == 0,
            r.y@ == 0,
            r.z@ == 0,
    {
        Vector3 { x: Scalar::zero(), y: Scalar::zero(), z: Scalar::zero() }
    }

    /// The vector with all three components equal to `v`.
    pub fn splat(v: Scalar) -> (r: Vector3)
        ensures
            r.x == v,
            r.y == v,
            r.z == v,
    {
        Vector3 { x: v, y: v, z: v }
    }

    /// The vector with every component multiplied by `factor`.
    pub open spec fn scaled(self, factor: Scalar) -> Vector3 {
        Vector3 { x: self.x.times(factor), y: self.y.times(factor), z: self.z.times(factor) }
    }

    /// Multiplies every component by `factor`.
    pub fn scale(self, factor: Scalar) -> (r: Vector3)
        ensures
            r == self.scaled(factor),
    {
        Vector3 {
            x: self.x.saturating_mul(factor),
            y: self.y.saturating_mul(factor),
            z: self.z.saturating_mul(factor),
        }
    }
}

} // verus!
