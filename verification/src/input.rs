//! The directional input mapper: held keys to camera-relative intents.

use crate::action::MovementAction;
use crate::scalar::{trunc_div, Scalar, SCALE};
use crate::sqrt::lemma_ceil_sqrt_is;
use crate::vector::{lemma_rescaled_component, Vector2, Vector3};
use vstd::prelude::*;

verus! {

/// The state of the movement keys in one tick.
#[derive(Clone, Copy, Debug, PartialEq, Eq, Structural)]
pub struct KeyboardState {
    /// A forward key is held.
    pub up: bool,
    /// A backward key is held.
    pub down: bool,
    /// A left key is held.
    pub left: bool,
    /// A right key is held.
    pub right: bool,
    /// The jump key went down in this tick.
    pub jump: bool,
}

/// The forward direction of the viewpoint projected onto the ground, with
/// its first component negated. Recomputed whenever the viewpoint turns.
#[derive(Clone, Copy, Debug, PartialEq, Eq, Structural)]
pub struct GroundFacingVector(pub Vector2);

impl Default for GroundFacingVector {
    /// The zero vector: until the viewpoint has turned once, no key moves
    /// anything.
    fn default() -> (r: GroundFacingVector)
        ensures
            r.0.x@ == 0,
            r.0.y@ == 0,
    {
        GroundFacingVector(Vector2::zero())
    }
}

/// One component of a unit diagonal: `SCALE` over the square root of two,
/// rounded toward zero.
pub const DIAGONAL: i64 = 707_106_781;

/// The value of an input axis: one for its positive key, minus one for its
/// negative key, zero for both or neither.
pub open spec fn axis(positive: bool, negative: bool) -> int {
    (if positive {
        1int
    } else {
        0int
    }) - (if negative {
        1int
    } else {
        0int
    })
}

/// Reads an input axis off its two keys.
pub fn axis_value(positive: bool, negative: bool) -> (r: i32)
    ensures
        r == axis(positive, negative),
{
    let up: i32 = if positive {
        1
    } else {
        0
    };
    let down: i32 = if negative {
        1
    } else {
        0
    };
    up - down
}

/// One component of the key direction after its length has been limited to
/// one: a lone axis keeps its full value, a diagonal is shortened.
pub open spec fn limited_axis(own: int, other: int) -> int {
    if other == 0 {
        own * SCALE
    } else {
        own * DIAGONAL
    }
}

/// The direction that the held keys ask for, no longer than one.
pub open spec fn key_direction(keys: KeyboardState) -> Vector2 {
    let horizontal = axis(keys.right, keys.left);
    let vertical = axis(keys.up, keys.down);
    Vector2 {
        x: Scalar::saturated(limited_axis(horizontal, vertical)),
        y: Scalar::saturated(limited_axis(vertical, horizontal)),
    }
}

impl GroundFacingVector {
    /// `direction` turned into world space: its second component runs
    /// against the facing vector, its first along the facing vector turned a
    /// quarter. Each result component is computed exactly and rounded once,
    /// toward zero.
    pub open spec fn world(self, direction: Vector2) -> Vector2 {
        let f = self.0;
        Vector2 {
            x: Scalar::saturated(
                trunc_div(-direction.y@ * f.x@ - direction.x@ * f.y@, SCALE as int),
            ),
            y: Scalar::saturated(
                trunc_div(-direction.y@ * f.y@ + direction.x@ * f.x@, SCALE as int),
            ),
        }
    }

    /// The facing vector is no longer than one.
    pub open spec fn well_formed(self) -> bool {
        self.0.length_squared() <= SCALE * SCALE
    }

    /// The facing vector is as long as one, to within four raw units.
    pub open spec fn is_unit(self) -> bool {
        self.0.is_unit()
    }

    /// The facing vector of a viewpoint that looks along `forward`: the
    /// horizontal part of `forward`, its first component negated, brought to
    /// length one. A viewpoint that looks straight up or down faces nowhere.
    pub open spec fn facing(forward: Vector3) -> GroundFacingVector {
        GroundFacingVector(
            (Vector2 { x: Scalar::saturated(-forward.x@), y: forward.z }).normalized(),
        )
    }

    /// Derives the facing vector from the forward direction of the viewpoint.
    pub fn from_forward(forward: Vector3) -> (r: GroundFacingVector)
        ensures
            r == GroundFacingVector::facing(forward),
            r.well_formed(),
            forward.x@ != 0 || forward.z@ != 0 ==> r.is_unit(),
    {
        GroundFacingVector(
            Vector2 { x: forward.x.saturating_neg(), y: forward.z }.normalize_or_zero(),
        )
    }

    /// Turns `direction` into world space.
    pub fn to_world(&self, direction: Vector2) -> (r: Vector2)
        ensures
            r == self.world(direction),
    {
        let fx: i128 = self.0.x.raw as i128;
        let fy: i128 = self.0.y.raw as i128;
        let dx: i128 = direction.x.raw as i128;
        let against: i128 = -(direction.y.raw as i128);
        proof {
            lemma_signed_product_bounds(dx as int, fx as int);
            lemma_signed_product_bounds(dx as int, fy as int);
            lemma_signed_product_bounds(fx as int, -against);
            lemma_signed_product_bounds(fy as int, -against);
            assert(against * fx == -(fx * (-against))) by (nonlinear_arith);
            assert(against * fy == -(fy * (-against))) by (nonlinear_arith);
        }
        let x: i128 = against * fx - dx * fy;
        let y: i128 = against * fy + dx * fx;
        Vector2 {
            x: Scalar::from_wide(x / (SCALE as i128)),
            y: Scalar::from_wide(y / (SCALE as i128)),
        }
    }
}

/// The product of two 64-bit values reaches `2^126` only as the square of
/// the most negative one, and never falls below `2^63 - 2^126`.
pub proof fn lemma_signed_product_bounds(a: int, b: int)
    requires
        i64::MIN <= a <= i64::MAX,
        i64::MIN <= b <= i64::MAX,
    ensures
        -0x4000_0000_0000_0000_0000_0000_0000_0000 + 0x8000_0000_0000_0000 <= a * b
            <= 0x4000_0000_0000_0000_0000_0000_0000_0000,
{
    let m: int = 0x8000_0000_0000_0000;
    assert(m * m == 0x4000_0000_0000_0000_0000_0000_0000_0000) by (nonlinear_arith)
        requires
            m == 0x8000_0000_0000_0000,
    ;
    assert(m * (m - 1) == m * m - m) by (nonlinear_arith);
    if a >= 0 && b >= 0 {
        assert(0 <= a * b <= m * m) by (nonlinear_arith)
            requires
                0 <= a <= m,
                0 <= b <= m,
        ;
    } else if a <= 0 && b <= 0 {
        assert(0 <= a * b <= m * m) by (nonlinear_arith)
            requires
                -m <= a <= 0,
                -m <= b <= 0,
        ;
    } else if a >= 0 {
        assert(-(m * (m - 1)) <= a * b <= 0) by (nonlinear_arith)
            requires
                0 <= a <= m - 1,
                -m <= b <= 0,
        ;
    } else {
        assert(-(m * (m - 1)) <= a * b <= 0) by (nonlinear_arith)
            requires
                0 <= b <= m - 1,
                -m <= a <= 0,
        ;
    }
}

/// The sum of the squares of the two turned components is the product of
/// the squared lengths.
pub proof fn lemma_two_squares(dx: int, dy: int, fx: int, fy: int)
    ensures
        (-dy * fx - dx * fy) * (-dy * fx - dx * fy) + (-dy * fy + dx * fx) * (-dy * fy + dx * fx)
            == (dx * dx + dy * dy) * (fx * fx + fy * fy),
{
    let p = dy * fx;
    let q = dx * fy;
    let r = dy * fy;
    let t = dx * fx;
    let x = -dy * fx - dx * fy;
    let y = -dy * fy + dx * fx;
    assert(-dy * fx == -p) by (nonlinear_arith)
        requires
            p == dy * fx,
    ;
    assert(-dy * fy == -r) by (nonlinear_arith)
        requires
            r == dy * fy,
    ;
    assert(x * x == p * p + 2 * (p * q) + q * q) by (nonlinear_arith)
        requires
            x == -p - q,
    ;
    assert(y * y == r * r - 2 * (r * t) + t * t) by (nonlinear_arith)
        requires
            y == t - r,
    ;
    assert(p * q == r * t) by (nonlinear_arith)
        requires
            p == dy * fx,
            q == dx * fy,
            r == dy * fy,
            t == dx * fx,
    ;
    let a = dx * dx;
    let b = dy * dy;
    let c = fx * fx;
    let d = fy * fy;
    assert(p * p == b * c) by (nonlinear_arith)
        requires
            p == dy * fx,
            b == dy * dy,
            c == fx * fx,
    ;
    assert(q * q == a * d) by (nonlinear_arith)
        requires
            q == dx * fy,
            a == dx * dx,
            d == fy * fy,
    ;
    assert(r * r == b * d) by (nonlinear_arith)
        requires
            r == dy * fy,
            b == dy * dy,
            d == fy * fy,
    ;
    assert(t * t == a * c) by (nonlinear_arith)
        requires
            t == dx * fx,
            a == dx * dx,
            c == fx * fx,
    ;
    assert((a + b) * (c + d) == a * c + a * d + b * c + b * d) by (nonlinear_arith);
}

/// The length of the key direction: zero where no axis is asked for, exactly
/// one where a single axis is, and where both are, one to within one raw
/// unit, not the square root of two.
pub proof fn lemma_key_direction_length(keys: KeyboardState)
    ensures
        ({
            let horizontal = axis(keys.right, keys.left);
            let vertical = axis(keys.up, keys.down);
            let length_squared = key_direction(keys).length_squared();
            &&& horizontal == 0 && vertical == 0 ==> length_squared == 0
            &&& (horizontal == 0) != (vertical == 0) ==> length_squared == SCALE * SCALE
            &&& horizontal != 0 || vertical != 0 ==> (SCALE - 1) * (SCALE - 1) < length_squared
                <= SCALE * SCALE
        }),
{
    let x = key_direction(keys).x@;
    let y = key_direction(keys).y@;
    lemma_component_square(x);
    lemma_component_square(y);
}

/// The squares of the values that a component of the key direction takes.
proof fn lemma_component_square(x: int)
    requires
        x == 0 || x == SCALE || x == -SCALE || x == DIAGONAL || x == -DIAGONAL,
    ensures
        x * x == (if x == 0 {
            0int
        } else if x == SCALE || x == -SCALE {
            1_000_000_000_000_000_000int
        } else {
            499_999_999_736_181_961int
        }),
        SCALE * SCALE == 1_000_000_000_000_000_000,
        (SCALE - 1) * (SCALE - 1) == 999_999_998_000_000_001,
{
    assert(x * x == (if x == 0 {
        0int
    } else if x == 1_000_000_000 || x == -1_000_000_000 {
        1_000_000_000_000_000_000int
    } else {
        499_999_999_736_181_961int
    })) by (nonlinear_arith)
        requires
            x == 0 || x == 1_000_000_000 || x == -1_000_000_000 || x == 707_106_781 || x
                == -707_106_781,
    ;
}

/// Turning a direction no longer than one by a facing vector no longer than
/// one gives a direction no longer than one.
pub proof fn lemma_world_direction_bounded(facing: GroundFacingVector, direction: Vector2)
    requires
        facing.well_formed(),
        direction.length_squared() <= SCALE * SCALE,
    ensures
        facing.world(direction).length_squared() <= SCALE * SCALE,
{
    let s: int = SCALE as int;
    let fx = facing.0.x@;
    let fy = facing.0.y@;
    let dx = direction.x@;
    let dy = direction.y@;
    let x = -dy * fx - dx * fy;
    let y = -dy * fy + dx * fx;
    let qx = trunc_div(x, s);
    let qy = trunc_div(y, s);
    let d2 = dx * dx + dy * dy;
    let f2 = fx * fx + fy * fy;
    assert(x * x + y * y == d2 * f2) by {
        lemma_two_squares(dx, dy, fx, fy);
    }
    assert(0 <= d2 && 0 <= f2) by (nonlinear_arith)
        requires
            d2 == dx * dx + dy * dy,
            f2 == fx * fx + fy * fy,
    ;
    assert(d2 * f2 <= (s * s) * (s * s)) by (nonlinear_arith)
        requires
            0 <= d2 <= s * s,
            0 <= f2 <= s * s,
    ;
    lemma_rescaled_component(x, 1, s);
    lemma_rescaled_component(y, 1, s);
    assert(x * 1 == x && y * 1 == y);
    assert((x * x) * (1int * 1int) == x * x) by (nonlinear_arith);
    assert((y * y) * (1int * 1int) == y * y) by (nonlinear_arith);
    assert((qx * qx + qy * qy) * (s * s) == qx * qx * (s * s) + qy * qy * (s * s))
        by (nonlinear_arith);
    assert(qx * qx + qy * qy <= s * s) by (nonlinear_arith)
        requires
            (qx * qx + qy * qy) * (s * s) <= (s * s) * (s * s),
            s * s > 0,
    ;
    assert(-s <= qx <= s && -s <= qy <= s) by (nonlinear_arith)
        requires
            qx * qx + qy * qy <= s * s,
            s > 0,
    ;
    assert(facing.world(direction).x@ == qx);
    assert(facing.world(direction).y@ == qy);
}

/// Turning a direction of length one by a facing vector of length one
/// gives a direction of length one: where the direction is less than one raw
/// unit short of one and the facing vector less than four, the turned
/// direction is less than eight raw units short, and no longer than one.
pub proof fn lemma_world_direction_reach(facing: GroundFacingVector, direction: Vector2)
    requires
        facing.is_unit(),
        (SCALE - 1) * (SCALE - 1) < direction.length_squared() <= SCALE * SCALE,
    ensures
        (SCALE - 8) * (SCALE - 8) < facing.world(direction).length_squared() <= SCALE * SCALE,
        !(facing.world(direction).x@ == 0 && facing.world(direction).y@ == 0),
{
    let s: int = SCALE as int;
    let fx = facing.0.x@;
    let fy = facing.0.y@;
    let dx = direction.x@;
    let dy = direction.y@;
    let x = -dy * fx - dx * fy;
    let y = -dy * fy + dx * fx;
    let qx = trunc_div(x, s);
    let qy = trunc_div(y, s);
    let d2 = dx * dx + dy * dy;
    let f2 = fx * fx + fy * fy;
    lemma_world_direction_bounded(facing, direction);
    assert(facing.world(direction).x@ == qx && facing.world(direction).y@ == qy) by {
        lemma_world_components(facing, direction);
    }
    assert(x * x + y * y == d2 * f2) by {
        lemma_two_squares(dx, dy, fx, fy);
    }
    let low_d: int = 999_999_998_000_000_001;
    let low_f: int = 999_999_992_000_000_016;
    assert((s - 1) * (s - 1) == low_d && (s - 4) * (s - 4) == low_f) by (nonlinear_arith)
        requires
            s == 1_000_000_000,
            low_d == 999_999_998_000_000_001,
            low_f == 999_999_992_000_000_016,
    ;
    assert(d2 * f2 > low_d * low_f) by (nonlinear_arith)
        requires
            d2 > low_d,
            f2 > low_f,
            low_d > 0,
            low_f > 0,
    ;
    let a = if qx >= 0 {
        qx
    } else {
        -qx
    };
    let b = if qy >= 0 {
        qy
    } else {
        -qy
    };
    lemma_truncated_reach(x, s);
    lemma_truncated_reach(y, s);
    let t = (a + 1) * (a + 1) + (b + 1) * (b + 1);
    let s2: int = 1_000_000_000_000_000_000;
    assert(s * s == s2) by (nonlinear_arith)
        requires
            s == 1_000_000_000,
            s2 == 1_000_000_000_000_000_000,
    ;
    assert(t * s2 == (a + 1) * (a + 1) * s2 + (b + 1) * (b + 1) * s2) by (nonlinear_arith)
        requires
            t == (a + 1) * (a + 1) + (b + 1) * (b + 1),
    ;
    assert(low_d * low_f >= 999_999_990_000_000_025 * s2) by (nonlinear_arith)
        requires
            low_d == 999_999_998_000_000_001,
            low_f == 999_999_992_000_000_016,
            s2 == 1_000_000_000_000_000_000,
    ;
    assert(t > 999_999_990_000_000_025);
    assert(t == a * a + b * b + 2 * a + 2 * b + 2) by (nonlinear_arith)
        requires
            t == (a + 1) * (a + 1) + (b + 1) * (b + 1),
    ;
    assert(a <= s && b <= s) by (nonlinear_arith)
        requires
            a * a + b * b <= s * s,
            a >= 0,
            b >= 0,
            s > 0,
    ;
    assert((s - 8) * (s - 8) == 999_999_984_000_000_064) by (nonlinear_arith)
        requires
            s == 1_000_000_000,
    ;
}

/// The components of a turned direction that is no longer than one are the
/// exact components, rounded toward zero: nothing saturates.
proof fn lemma_world_components(facing: GroundFacingVector, direction: Vector2)
    requires
        facing.well_formed(),
        direction.length_squared() <= SCALE * SCALE,
    ensures
        facing.world(direction).x@ == trunc_div(
            -direction.y@ * facing.0.x@ - direction.x@ * facing.0.y@,
            SCALE as int,
        ),
        facing.world(direction).y@ == trunc_div(
            -direction.y@ * facing.0.y@ + direction.x@ * facing.0.x@,
            SCALE as int,
        ),
{
    let s: int = SCALE as int;
    let fx = facing.0.x@;
    let fy = facing.0.y@;
    let dx = direction.x@;
    let dy = direction.y@;
    let x = -dy * fx - dx * fy;
    let y = -dy * fy + dx * fx;
    let qx = trunc_div(x, s);
    let qy = trunc_div(y, s);
    let d2 = dx * dx + dy * dy;
    let f2 = fx * fx + fy * fy;
    assert(x * x + y * y == d2 * f2) by {
        lemma_two_squares(dx, dy, fx, fy);
    }
    assert(0 <= d2 && 0 <= f2) by (nonlinear_arith)
        requires
            d2 == dx * dx + dy * dy,
            f2 == fx * fx + fy * fy,
    ;
    assert(d2 * f2 <= (s * s) * (s * s)) by (nonlinear_arith)
        requires
            0 <= d2 <= s * s,
            0 <= f2 <= s * s,
    ;
    lemma_rescaled_component(x, 1, s);
    lemma_rescaled_component(y, 1, s);
    assert(x * 1 == x && y * 1 == y);
    assert((x * x) * (1int * 1int) == x * x) by (nonlinear_arith);
    assert((y * y) * (1int * 1int) == y * y) by (nonlinear_arith);
    assert((qx * qx + qy * qy) * (s * s) == qx * qx * (s * s) + qy * qy * (s * s))
        by (nonlinear_arith);
    assert(qx * qx + qy * qy <= s * s) by (nonlinear_arith)
        requires
            (qx * qx + qy * qy) * (s * s) <= (s * s) * (s * s),
            s * s > 0,
    ;
    assert(-s <= qx <= s && -s <= qy <= s) by (nonlinear_arith)
        requires
            qx * qx + qy * qy <= s * s,
            s > 0,
    ;
}

/// How little a quotient loses to rounding toward zero: its magnitude `a`,
/// raised by one, times the divisor passes the magnitude of the numerator.
proof fn lemma_truncated_reach(x: int, len: int)
    requires
        0 < len,
    ensures
        ({
            let q = trunc_div(x, len);
            let a = if q >= 0 {
                q
            } else {
                -q
            };
            &&& a * a == q * q
            &&& (a + 1) * (a + 1) * (len * len) > x * x
        }),
{
    let q = trunc_div(x, len);
    let a = if q >= 0 {
        q
    } else {
        -q
    };
    let big = if x >= 0 {
        x
    } else {
        -x
    };
    crate::scalar::lemma_trunc_div_bounds(x, len);
    assert(a * a == q * q) by (nonlinear_arith)
        requires
            a == q || a == -q,
    ;
    assert((q + 1) * len == q * len + len && (q - 1) * len == q * len - len) by (nonlinear_arith);
    assert((a + 1) * len == a * len + len) by (nonlinear_arith);
    assert(a * len == q * len || a * len == -(q * len)) by (nonlinear_arith)
        requires
            a == q || a == -q,
    ;
    assert(0 <= big < (a + 1) * len);
    assert(big * big < ((a + 1) * len) * ((a + 1) * len)) by (nonlinear_arith)
        requires
            0 <= big < (a + 1) * len,
    ;
    assert(big * big == x * x) by (nonlinear_arith)
        requires
            big == x || big == -x,
    ;
    assert(((a + 1) * len) * ((a + 1) * len) == (a + 1) * (a + 1) * (len * len))
        by (nonlinear_arith);
}

/// The intents that the keys raise in one tick, in the order in which they
/// are sent.
///
/// Without a viewpoint nothing is sent. Otherwise a `Move` comes first, if
/// the key direction turned into world space is not zero, and a `Jump` after
/// it, if the jump key went down in this tick.
pub open spec fn keyboard_events(
    keys: KeyboardState,
    camera: Option<GroundFacingVector>,
) -> Seq<MovementAction> {
    match camera {
        None => Seq::empty(),
        Some(facing) => {
            let direction = facing.world(key_direction(keys));
            let moves = if direction.x@ == 0 && direction.y@ == 0 {
                Seq::empty()
            } else {
                seq![MovementAction::Move(direction)]
            };
            let jumps = if keys.jump {
                seq![MovementAction::Jump]
            } else {
                Seq::empty()
            };
            moves + jumps
        },
    }
}

/// Limiting the raw key direction to length one leaves a lone axis as it
/// is and shortens each component of a diagonal to `DIAGONAL`.
proof fn lemma_pressed_direction(horizontal: int, vertical: int)
    requires
        -1 <= horizontal <= 1,
        -1 <= vertical <= 1,
    ensures
        (Vector2 {
            x: Scalar::saturated(horizontal * SCALE),
            y: Scalar::saturated(vertical * SCALE),
        }).shortened(Scalar { raw: SCALE }) == (Vector2 {
            x: Scalar::saturated(limited_axis(horizontal, vertical)),
            y: Scalar::saturated(limited_axis(vertical, horizontal)),
        }),
{
    let pressed = Vector2 {
        x: Scalar::saturated(horizontal * SCALE),
        y: Scalar::saturated(vertical * SCALE),
    };
    let x = pressed.x@;
    let y = pressed.y@;
    lemma_component_square(x);
    lemma_component_square(y);
    if horizontal != 0 && vertical != 0 {
        // The full diagonal, magnified by 2^31.
        let wide: int = 2_147_483_648_000_000_000;
        let squared: int = 4_611_686_018_427_387_904_000_000_000_000_000_000;
        let measured: int = 3_037_000_499_976_049_693;
        assert(pressed.magnification() == 0x8000_0000);
        assert(x * 0x8000_0000 == wide || x * 0x8000_0000 == -wide);
        assert(y * 0x8000_0000 == wide || y * 0x8000_0000 == -wide);
        assert(wide * wide == squared && (-wide) * (-wide) == squared) by (nonlinear_arith)
            requires
                wide == 2_147_483_648_000_000_000,
                squared == 4_611_686_018_427_387_904_000_000_000_000_000_000,
        ;
        assert((measured - 1) * (measured - 1) < 2 * squared <= measured * measured)
            by (nonlinear_arith)
            requires
                measured == 3_037_000_499_976_049_693,
                squared == 4_611_686_018_427_387_904_000_000_000_000_000_000,
        ;
        lemma_ceil_sqrt_is((2 * squared) as nat, measured as nat);
        assert((x * 0x8000_0000) * (x * 0x8000_0000) == squared);
        assert((y * 0x8000_0000) * (y * 0x8000_0000) == squared);
        assert(pressed.measured_length() == measured);
        assert(wide * SCALE == 2_147_483_648_000_000_000_000_000_000 && (-wide) * SCALE
            == -2_147_483_648_000_000_000_000_000_000) by (nonlinear_arith)
            requires
                wide == 2_147_483_648_000_000_000,
                SCALE == 1_000_000_000,
        ;
    }
}

/// Maps the held keys to movement intents relative to the viewpoint.
pub fn keyboard_input(keys: &KeyboardState, camera: Option<GroundFacingVector>) -> (events: Vec<
    MovementAction,
>)
    ensures
        events@ == keyboard_events(*keys, camera),
        camera matches Some(facing) && facing.well_formed() ==> forall|i: int|
            0 <= i < events.len() ==> (#[trigger] events[i]).well_formed(),
        camera matches Some(facing) && facing.is_unit() && (axis(keys.right, keys.left) != 0
            || axis(keys.up, keys.down) != 0) ==> events.len() >= 1 && events[0].is_full_move(),
        forall|i: int| 1 <= i < events.len() ==> (#[trigger] events[i]) == MovementAction::Jump,
{
    let horizontal: i32 = axis_value(keys.right, keys.left);
    let vertical: i32 = axis_value(keys.up, keys.down);
    let pressed = Vector2::new(Scalar::from_int(horizontal), Scalar::from_int(vertical));
    let direction = pressed.clamp_length_max(Scalar::one());
    proof {
        lemma_pressed_direction(horizontal as int, vertical as int);
    }
    let facing = match camera {
        Some(f) => f,
        None => {
            return Vec::new();
        },
    };
    let direction = facing.to_world(direction);
    let mut events: Vec<MovementAction> = Vec::new();
    if !direction.is_zero() {
        events.push(MovementAction::Move(direction));
    }
    if keys.jump {
        events.push(MovementAction::Jump);
    }
    proof {
        lemma_key_direction_length(*keys);
        if facing.well_formed() {
            lemma_world_direction_bounded(facing, key_direction(*keys));
        }
        if facing.is_unit() && (axis(keys.right, keys.left) != 0 || axis(keys.up, keys.down)
            != 0) {
            lemma_world_direction_reach(facing, key_direction(*keys));
        }
    }
    events
}

} // verus!
