//! The steady state under constant input.
//!
//! A body that starts at rest and is pushed forward at full input in every
//! tick, with damping after every push, speeds up tick by tick toward
//! `acceleration * dt / (1 - damping)` and never passes it. The speed meant
//! is the one reached inside a tick, after the push and before the damping;
//! after the damping it is smaller by the damping factor.
//!
//! Fixed-point rounding stops the climb a little short of the limit: the
//! speed comes to rest less than `1 / (1 - damping)` raw units below it.
//!
//! Three laws say so. `lemma_speed_never_passes_limit` holds for any
//! direction of input and of motion; `lemma_forward_tick` follows one tick
//! of full forward input from any speed; `lemma_damping_convergence` follows
//! the whole climb from rest.

use crate::action::MovementAction;
use crate::input::lemma_two_squares;
use crate::movement::{CharacterMotion, DampedMotion};
use crate::profile::MovementDampingFactor;
use crate::scalar::{
    fixed_mul, fixed_sub, lemma_times_one, lemma_trunc_div_bounds, saturate, scaled_product,
    trunc_div, Scalar, SCALE,
};
use crate::sqrt::lemma_square_monotonic;
use crate::vector::{lemma_rescaled_component, Vector2};
use vstd::prelude::*;

verus! {

/// Full forward input.
pub open spec fn unit_forward() -> Vector2 {
    Vector2 { x: Scalar { raw: 0 }, y: Scalar { raw: SCALE } }
}

/// The body after one tick of full forward input: the push of the
/// integrator, then the damping stage.
pub open spec fn forward_tick(
    body: CharacterMotion,
    damping: MovementDampingFactor,
    dt: Scalar,
) -> CharacterMotion {
    let pushed = body.after(MovementAction::Move(unit_forward()), dt);
    CharacterMotion {
        acceleration: pushed.acceleration,
        jump_impulse: pushed.jump_impulse,
        linear_velocity: (DampedMotion {
            damping,
            linear_velocity: pushed.linear_velocity,
        }).damped().linear_velocity,
        grounded: pushed.grounded,
    }
}

/// The body after `n` ticks of full forward input.
pub open spec fn forward_ticks(
    body: CharacterMotion,
    damping: MovementDampingFactor,
    dt: Scalar,
    n: nat,
) -> CharacterMotion
    decreases n,
{
    if n == 0 {
        body
    } else {
        forward_tick(forward_ticks(body, damping, dt, (n - 1) as nat), damping, dt)
    }
}

/// What one push at full input adds to the speed, in raw units.
pub open spec fn push(acceleration: int, dt: int) -> int {
    fixed_mul(acceleration, dt)
}

/// The forward speed after `n` ticks from rest.
pub open spec fn forward_speed(
    body: CharacterMotion,
    damping: MovementDampingFactor,
    dt: Scalar,
    n: nat,
) -> int {
    -forward_ticks(body, damping, dt, n).linear_velocity.z@
}

/// After this many ticks from rest the speed has come to rest.
pub open spec fn settling_ticks(acceleration: int, dt: int, damping: int) -> nat {
    ((damping * push(acceleration, dt)) / (SCALE - damping)) as nat
}

/// How far the speed reached inside a tick, from a speed `v` before it,
/// stays below the limit, times `SCALE - damping`.
pub open spec fn gap(v: int, push: int, damping: int) -> int {
    SCALE * push - (v + push) * (SCALE - damping)
}

/// The velocity along `z` after one tick of full forward input, from the
/// velocity `z` before it.
pub open spec fn next_z(z: int, push: int, damping: int) -> int {
    fixed_mul(fixed_sub(z, push), damping)
}

/// The velocity along `z` after `n` ticks of full forward input from rest.
pub open spec fn z_after(n: nat, push: int, damping: int) -> int
    decreases n,
{
    if n == 0 {
        0
    } else {
        next_z(z_after((n - 1) as nat, push, damping), push, damping)
    }
}

/// One tick from a speed `v` at or below the resting speed: the speed does
/// not fall, stays at or below the resting speed, and is the damped sum of
/// `v` and the push, rounded down.
proof fn lemma_one_tick(v: int, push: int, damping: int)
    requires
        0 <= v,
        0 <= push,
        0 < damping < SCALE,
        v * (SCALE - damping) <= damping * push,
        SCALE * push <= (SCALE - damping) * i64::MAX,
    ensures
        ({
            let next = -next_z(-v, push, damping);
            &&& v <= next
            &&& next * (SCALE - damping) <= damping * push
            &&& (v + push) * (SCALE - damping) <= SCALE * push
            &&& next * SCALE <= (v + push) * damping < next * SCALE + SCALE
            &&& SCALE * gap(next, push, damping) < damping * gap(v, push, damping) + SCALE * (
            SCALE - damping)
            &&& damping * gap(v, push, damping) <= SCALE * gap(next, push, damping)
            &&& fixed_sub(-v, push) == -(v + push)
        }),
{
    let s: int = SCALE as int;
    let d = damping;
    let rest = s - d;
    let top: int = i64::MAX as int;
    let w = v + push;
    assert(w * rest == v * rest + push * rest) by (nonlinear_arith)
        requires
            w == v + push,
    ;
    assert(d * push + push * rest == s * push) by (nonlinear_arith)
        requires
            rest == s - d,
    ;
    assert(w <= top) by (nonlinear_arith)
        requires
            w * rest <= rest * top,
            rest > 0,
    ;
    assert(fixed_sub(-v, push) == -w);
    let n = w * d;
    assert((-w) * d == -n) by (nonlinear_arith)
        requires
            n == w * d,
    ;
    assert(0 <= n <= w * s) by (nonlinear_arith)
        requires
            n == w * d,
            0 <= w,
            0 < d < s,
    ;
    lemma_trunc_div_bounds(n, s);
    let q = trunc_div(n, s);
    assert(scaled_product(-w, d) == -q);
    assert(q <= w) by (nonlinear_arith)
        requires
            q * s <= n,
            n <= w * s,
            s > 0,
    ;
    assert(next_z(-v, push, damping) == -q);
    assert(v * s == v * d + v * rest) by (nonlinear_arith)
        requires
            rest == s - d,
    ;
    assert(n == v * d + d * push) by (nonlinear_arith)
        requires
            n == w * d,
            w == v + push,
    ;
    assert(v <= q) by (nonlinear_arith)
        requires
            v * s <= n,
            n < (q + 1) * s,
            s > 0,
    ;
    assert(s * (q * rest) <= s * (d * push)) by (nonlinear_arith)
        requires
            q * s <= w * d,
            w * rest <= s * push,
            rest > 0,
            d > 0,
            q >= 0,
            w >= 0,
    ;
    assert(q * rest <= d * push) by (nonlinear_arith)
        requires
            s * (q * rest) <= s * (d * push),
            s > 0,
    ;
    assert((q + 1) * s == q * s + s) by (nonlinear_arith);
    assert(s * gap(q, push, d) < d * gap(v, push, d) + s * rest) by (nonlinear_arith)
        requires
            gap(q, push, d) == s * push - (q + push) * rest,
            gap(v, push, d) == s * push - (v + push) * rest,
            (v + push) * d < q * s + s,
            rest == s - d,
            rest > 0,
    ;
    assert((q * s) * rest <= (w * d) * rest) by (nonlinear_arith)
        requires
            q * s <= w * d,
            rest > 0,
    ;
    assert(s * gap(q, push, d) == s * (d * push) - (q * s) * rest) by (nonlinear_arith)
        requires
            gap(q, push, d) == s * push - (q + push) * rest,
            rest == s - d,
    ;
    assert(d * gap(v, push, d) == s * (d * push) - (w * d) * rest) by (nonlinear_arith)
        requires
            gap(v, push, d) == s * push - w * rest,
            w == v + push,
            rest == s - d,
    ;
}

/// The speed after every number of ticks from rest lies between zero and
/// the resting speed, and does not fall from one tick to the next.
proof fn lemma_speed_climbs(n: nat, push: int, damping: int)
    requires
        0 <= push,
        0 < damping < SCALE,
        SCALE * push <= (SCALE - damping) * i64::MAX,
    ensures
        0 <= -z_after(n, push, damping) <= -z_after(n + 1, push, damping),
        -z_after(n, push, damping) * (SCALE - damping) <= damping * push,
        -z_after(n + 1, push, damping) * (SCALE - damping) <= damping * push,
        (-z_after(n, push, damping) + push) * (SCALE - damping) <= SCALE * push,
        SCALE * gap(-z_after(n + 1, push, damping), push, damping) < damping * gap(
            -z_after(n, push, damping),
            push,
            damping,
        ) + SCALE * (SCALE - damping),
    decreases n,
{
    if n == 0 {
        assert(0 <= damping * push) by (nonlinear_arith)
            requires
                0 <= push,
                0 < damping,
        ;
        assert(0 * (SCALE - damping) == 0) by (nonlinear_arith);
    } else {
        lemma_speed_climbs((n - 1) as nat, push, damping);
    }
    lemma_one_tick(-z_after(n, push, damping), push, damping);
}

/// From rest, the speed either has stopped changing after `n + 1` ticks or
/// has climbed by at least one raw unit in each of them.
proof fn lemma_speed_rests_or_climbs(n: nat, push: int, damping: int)
    requires
        0 <= push,
        0 < damping < SCALE,
        SCALE * push <= (SCALE - damping) * i64::MAX,
    ensures
        z_after(n + 1, push, damping) == z_after(n, push, damping) || -z_after(
            n + 1,
            push,
            damping,
        ) >= n + 1,
    decreases n,
{
    lemma_speed_climbs(n, push, damping);
    if n > 0 {
        lemma_speed_rests_or_climbs((n - 1) as nat, push, damping);
    }
}

/// Once the speed has come to rest it lies less than `SCALE / (SCALE -
/// damping)` raw units below the limit.
proof fn lemma_resting_speed(n: nat, push: int, damping: int)
    requires
        0 <= push,
        0 < damping < SCALE,
        SCALE * push <= (SCALE - damping) * i64::MAX,
        z_after(n + 1, push, damping) == z_after(n, push, damping),
    ensures
        gap(-z_after(n, push, damping), push, damping) < SCALE,
{
    let s: int = SCALE as int;
    let d = damping;
    let rest = s - d;
    let v = -z_after(n, push, damping);
    let w = v + push;
    lemma_speed_climbs(n, push, damping);
    lemma_one_tick(v, push, damping);
    assert(w * d < v * s + s);
    assert(w * rest + w * d == w * s) by (nonlinear_arith)
        requires
            rest == s - d,
    ;
    assert(w * s == v * s + push * s) by (nonlinear_arith)
        requires
            w == v + push,
    ;
    assert(push * s == s * push) by (nonlinear_arith);
}

/// The typed ticks and the raw recurrence describe the same motion: a body
/// that starts with no horizontal velocity keeps zero velocity along `x`,
/// and its velocity along `z` follows `z_after`.
proof fn lemma_ticks_follow_recurrence(
    body: CharacterMotion,
    damping: MovementDampingFactor,
    dt: Scalar,
    n: nat,
)
    requires
        body.linear_velocity.x@ == 0,
        body.linear_velocity.z@ == 0,
    ensures
        forward_ticks(body, damping, dt, n).acceleration == body.acceleration,
        forward_ticks(body, damping, dt, n).linear_velocity.x@ == 0,
        forward_ticks(body, damping, dt, n).linear_velocity.z@ == z_after(
            n,
            push(body.acceleration.0@, dt@),
            damping.0@,
        ),
    decreases n,
{
    if n > 0 {
        lemma_ticks_follow_recurrence(body, damping, dt, (n - 1) as nat);
        lemma_times_one(body.acceleration.0@);
        assert(scaled_product(0, body.acceleration.0@) == 0) by (nonlinear_arith);
        assert(scaled_product(0, dt@) == 0) by (nonlinear_arith);
        assert(scaled_product(0, damping.0@) == 0) by (nonlinear_arith);
    }
}

/// One tick of full forward input from any forward speed at or below the
/// resting speed, for a body that does not move sideways, with an
/// acceleration and a tick length that are not negative and a damping factor
/// strictly between zero and one, where the limit `acceleration * dt / (1 -
/// damping)` can be represented:
///
/// - the integrator adds the push to the speed, exactly, and the speed it
///   reaches is at most the limit;
/// - after damping the speed has not fallen and is at most the limit times
///   the damping factor;
/// - what the speed lacks to the limit is multiplied by the damping factor,
///   but for less than one raw unit of rounding.
pub proof fn lemma_forward_tick(
    body: CharacterMotion,
    damping: MovementDampingFactor,
    dt: Scalar,
)
    requires
        body.linear_velocity.x@ == 0,
        body.linear_velocity.z@ <= 0,
        body.acceleration.0@ >= 0,
        dt@ >= 0,
        0 < damping.0@ < SCALE,
        -body.linear_velocity.z@ * (SCALE - damping.0@) <= damping.0@ * push(
            body.acceleration.0@,
            dt@,
        ),
        SCALE * push(body.acceleration.0@, dt@) <= (SCALE - damping.0@) * i64::MAX,
    ensures
        ({
            let step = push(body.acceleration.0@, dt@);
            let rest = SCALE - damping.0@;
            let speed = -body.linear_velocity.z@;
            let pushed = body.after(MovementAction::Move(unit_forward()), dt).linear_velocity;
            let after = forward_tick(body, damping, dt).linear_velocity;
            let next = -after.z@;
            &&& pushed.x@ == 0
            &&& -pushed.z@ == speed + step
            &&& (speed + step) * rest <= SCALE * step
            &&& after.x@ == 0
            &&& speed <= next
            &&& next * rest <= damping.0@ * step
            &&& damping.0@ * gap(speed, step, damping.0@) <= SCALE * gap(next, step, damping.0@)
                < damping.0@ * gap(speed, step, damping.0@) + SCALE * rest
        }),
{
    let step = push(body.acceleration.0@, dt@);
    assert(step >= 0) by {
        assert(body.acceleration.0@ * dt@ >= 0) by (nonlinear_arith)
            requires
                body.acceleration.0@ >= 0,
                dt@ >= 0,
        ;
        lemma_trunc_div_bounds(body.acceleration.0@ * dt@, SCALE as int);
    }
    lemma_times_one(body.acceleration.0@);
    assert(scaled_product(0, body.acceleration.0@) == 0) by (nonlinear_arith);
    assert(scaled_product(0, dt@) == 0) by (nonlinear_arith);
    assert(scaled_product(0, damping.0@) == 0) by (nonlinear_arith);
    lemma_one_tick(-body.linear_velocity.z@, step, damping.0@);
}

/// Saturation never adds to a magnitude.
proof fn lemma_saturate_shrinks(t: int)
    ensures
        saturate(t) * saturate(t) <= t * t,
{
    if t > i64::MAX {
        lemma_square_monotonic(i64::MAX as int, t);
    } else if t < i64::MIN {
        lemma_square_monotonic(-(i64::MIN as int), -t);
        assert((-t) * (-t) == t * t) by (nonlinear_arith);
        assert((-(i64::MIN as int)) * (-(i64::MIN as int)) == (i64::MIN as int) * (i64::MIN as int))
            by (nonlinear_arith);
    }
}

/// A fixed-point product is never larger in magnitude than the exact one.
proof fn lemma_product_shrinks(x: int, y: int)
    ensures
        fixed_mul(x, y) * fixed_mul(x, y) * (SCALE * SCALE) <= (x * y) * (x * y),
{
    let s: int = SCALE as int;
    let n = x * y;
    let q = trunc_div(n, s);
    let m = fixed_mul(x, y);
    lemma_rescaled_component(n, 1, s);
    assert(n * 1 == n);
    assert((n * n) * (1int * 1int) == n * n) by (nonlinear_arith);
    lemma_saturate_shrinks(q);
    assert(m * m * (s * s) <= q * q * (s * s)) by (nonlinear_arith)
        requires
            m * m <= q * q,
            s > 0,
    ;
}

/// What a move adds to one component of the velocity is never larger in
/// magnitude than the exact product of input, acceleration and tick length.
proof fn lemma_push_shrinks(u: int, a: int, dt: int)
    ensures
        ({
            let p = fixed_mul(fixed_mul(u, a), dt);
            p * p * ((SCALE * SCALE) * (SCALE * SCALE)) <= (u * u) * ((a * dt) * (a * dt))
        }),
{
    let s2: int = SCALE * SCALE;
    let m = fixed_mul(u, a);
    let p = fixed_mul(m, dt);
    lemma_product_shrinks(u, a);
    lemma_product_shrinks(m, dt);
    assert(s2 > 0) by (nonlinear_arith)
        requires
            s2 == SCALE * SCALE,
            SCALE > 0,
    ;
    assert((m * dt) * (m * dt) == (m * m) * (dt * dt)) by (nonlinear_arith);
    assert((u * a) * (u * a) * (dt * dt) == (u * u) * ((a * dt) * (a * dt))) by (nonlinear_arith);
    assert(dt * dt >= 0) by (nonlinear_arith);
    assert(((m * m) * (dt * dt)) * s2 <= ((u * a) * (u * a)) * (dt * dt)) by (nonlinear_arith)
        requires
            (m * m) * s2 <= (u * a) * (u * a),
            dt * dt >= 0,
    ;
    assert((p * p * s2) * s2 <= ((m * m) * (dt * dt)) * s2) by (nonlinear_arith)
        requires
            p * p * s2 <= (m * m) * (dt * dt),
            s2 > 0,
    ;
    assert(p * p * (s2 * s2) == (p * p * s2) * s2) by (nonlinear_arith);
}

/// The triangle inequality on squared lengths: two vectors no longer than
/// `a` and `b` add up to a vector no longer than `a + b`.
pub proof fn lemma_triangle(x1: int, y1: int, x2: int, y2: int, a: int, b: int)
    requires
        0 <= a,
        0 <= b,
        x1 * x1 + y1 * y1 <= a * a,
        x2 * x2 + y2 * y2 <= b * b,
    ensures
        (x1 + x2) * (x1 + x2) + (y1 + y2) * (y1 + y2) <= (a + b) * (a + b),
{
    let dot = x1 * x2 + y1 * y2;
    let cross = -y1 * x2 + x1 * y2;
    let n1 = x1 * x1 + y1 * y1;
    let n2 = x2 * x2 + y2 * y2;
    lemma_two_squares(x1, y1, y2, x2);
    assert(-y1 * y2 - x1 * x2 == -dot) by (nonlinear_arith)
        requires
            dot == x1 * x2 + y1 * y2,
    ;
    assert((-dot) * (-dot) == dot * dot) by (nonlinear_arith);
    assert(y2 * y2 + x2 * x2 == n2);
    assert(dot * dot + cross * cross == n1 * n2);
    assert(cross * cross >= 0) by (nonlinear_arith);
    assert(0 <= n1 && 0 <= n2) by (nonlinear_arith)
        requires
            n1 == x1 * x1 + y1 * y1,
            n2 == x2 * x2 + y2 * y2,
    ;
    assert(n1 * n2 <= (a * a) * (b * b)) by (nonlinear_arith)
        requires
            0 <= n1 <= a * a,
            0 <= n2 <= b * b,
    ;
    assert((a * a) * (b * b) == (a * b) * (a * b)) by (nonlinear_arith);
    assert(0 <= a * b) by (nonlinear_arith)
        requires
            0 <= a,
            0 <= b,
    ;
    if dot > a * b {
        assert(dot * dot > (a * b) * (a * b)) by (nonlinear_arith)
            requires
                dot > a * b,
                a * b >= 0,
        ;
    }
    assert((x1 + x2) * (x1 + x2) + (y1 + y2) * (y1 + y2) == n1 + n2 + 2 * dot)
        by (nonlinear_arith)
        requires
            n1 == x1 * x1 + y1 * y1,
            n2 == x2 * x2 + y2 * y2,
            dot == x1 * x2 + y1 * y2,
    ;
    assert((a + b) * (a + b) == a * a + b * b + 2 * (a * b)) by (nonlinear_arith);
}

/// The steady-state speed is never passed, whatever the direction of the
/// input and of the motion. Let `X` be `acceleration * dt / (1 - damping)`,
/// with an acceleration and a tick length that are not negative and a
/// damping factor strictly between zero and one. A body whose horizontal
/// speed is at most `damping * X`, as the damping stage leaves it, has a
/// horizontal speed of at most `X` after any move no longer than one.
///
/// The speeds are compared by their squares, and the bounds multiplied out:
/// in raw units `X` is `acceleration * dt / (SCALE - damping)`.
pub proof fn lemma_speed_never_passes_limit(
    body: CharacterMotion,
    direction: Vector2,
    damping: MovementDampingFactor,
    dt: Scalar,
)
    requires
        body.acceleration.0@ >= 0,
        dt@ >= 0,
        0 < damping.0@ < SCALE,
        direction.length_squared() <= SCALE * SCALE,
        ({
            let v = body.linear_velocity;
            let rest = SCALE - damping.0@;
            let exact_push = body.acceleration.0@ * dt@;
            (v.x@ * v.x@ + v.z@ * v.z@) * ((SCALE * rest) * (SCALE * rest)) <= (damping.0@
                * exact_push) * (damping.0@ * exact_push)
        }),
    ensures
        ({
            let after = body.after(MovementAction::Move(direction), dt).linear_velocity;
            let rest = SCALE - damping.0@;
            let exact_push = body.acceleration.0@ * dt@;
            (after.x@ * after.x@ + after.z@ * after.z@) * (rest * rest) <= exact_push * exact_push
        }),
{
    let s: int = SCALE as int;
    let d = damping.0@;
    let rest = s - d;
    let a = body.acceleration.0@;
    let big = a * dt@;
    let vx = body.linear_velocity.x@;
    let vz = body.linear_velocity.z@;
    let px = fixed_mul(fixed_mul(direction.x@, a), dt@);
    let pz = fixed_mul(fixed_mul(direction.y@, a), dt@);
    let tx = vx + px;
    let tz = vz - pz;
    let after = body.after(MovementAction::Move(direction), dt).linear_velocity;
    let nx = after.x@;
    let nz = after.z@;
    assert(nx == saturate(tx) && nz == saturate(tz));
    lemma_saturate_shrinks(tx);
    lemma_saturate_shrinks(tz);
    let s2 = s * s;
    let r2 = rest * rest;
    let k = s * rest;
    assert(big >= 0) by (nonlinear_arith)
        requires
            big == a * dt@,
            a >= 0,
            dt@ >= 0,
    ;
    assert(s2 > 0 && r2 > 0 && k > 0) by (nonlinear_arith)
        requires
            s2 == s * s,
            r2 == rest * rest,
            k == s * rest,
            s > 0,
            rest > 0,
    ;
    // The push is no longer than the exact push.
    lemma_push_shrinks(direction.x@, a, dt@);
    lemma_push_shrinks(direction.y@, a, dt@);
    let u2 = direction.x@ * direction.x@ + direction.y@ * direction.y@;
    let b2 = big * big;
    assert(b2 >= 0) by (nonlinear_arith)
        requires
            b2 == big * big,
    ;
    assert((px * px + pz * pz) * (s2 * s2) == px * px * (s2 * s2) + pz * pz * (s2 * s2))
        by (nonlinear_arith);
    assert((direction.x@ * direction.x@) * b2 + (direction.y@ * direction.y@) * b2 == u2 * b2)
        by (nonlinear_arith)
        requires
            u2 == direction.x@ * direction.x@ + direction.y@ * direction.y@,
    ;
    assert(u2 * b2 <= s2 * b2) by (nonlinear_arith)
        requires
            u2 <= s2,
            b2 >= 0,
    ;
    assert((px * px + pz * pz) * s2 <= b2) by (nonlinear_arith)
        requires
            (px * px + pz * pz) * (s2 * s2) <= s2 * b2,
            s2 > 0,
    ;
    // Both vectors, magnified by `SCALE * rest`.
    let x1 = vx * k;
    let y1 = vz * k;
    let x2 = px * k;
    let y2 = -pz * k;
    let bound1 = d * big;
    let bound2 = big * rest;
    assert(x1 * x1 + y1 * y1 == (vx * vx + vz * vz) * (k * k)) by (nonlinear_arith)
        requires
            x1 == vx * k,
            y1 == vz * k,
    ;
    let k2 = k * k;
    assert(k2 == s2 * r2) by (nonlinear_arith)
        requires
            k2 == (s * rest) * (s * rest),
            s2 == s * s,
            r2 == rest * rest,
    ;
    let p2 = px * px + pz * pz;
    assert(x2 * x2 + y2 * y2 == p2 * k2) by (nonlinear_arith)
        requires
            x2 == px * k,
            y2 == -pz * k,
            k2 == k * k,
            p2 == px * px + pz * pz,
    ;
    assert(p2 * (s2 * r2) == (p2 * s2) * r2) by (nonlinear_arith);
    assert(((px * px + pz * pz) * s2) * r2 <= b2 * r2) by (nonlinear_arith)
        requires
            (px * px + pz * pz) * s2 <= b2,
            r2 > 0,
    ;
    assert(b2 * r2 == bound2 * bound2) by (nonlinear_arith)
        requires
            b2 == big * big,
            r2 == rest * rest,
            bound2 == big * rest,
    ;
    assert(0 <= bound1 && 0 <= bound2) by (nonlinear_arith)
        requires
            bound1 == d * big,
            bound2 == big * rest,
            d > 0,
            rest > 0,
            big >= 0,
    ;
    lemma_triangle(x1, y1, x2, y2, bound1, bound2);
    assert(x1 + x2 == tx * k && y1 + y2 == tz * k) by (nonlinear_arith)
        requires
            x1 == vx * k,
            y1 == vz * k,
            x2 == px * k,
            y2 == -pz * k,
            tx == vx + px,
            tz == vz - pz,
    ;
    assert(bound1 + bound2 == big * s) by (nonlinear_arith)
        requires
            bound1 == d * big,
            bound2 == big * rest,
            rest == s - d,
    ;
    let t2 = tx * tx + tz * tz;
    assert((tx * k) * (tx * k) + (tz * k) * (tz * k) == t2 * k2) by (nonlinear_arith)
        requires
            k2 == k * k,
            t2 == tx * tx + tz * tz,
    ;
    assert(t2 * (s2 * r2) == (t2 * r2) * s2) by (nonlinear_arith);
    assert((big * s) * (big * s) == b2 * s2) by (nonlinear_arith)
        requires
            b2 == big * big,
            s2 == s * s,
    ;
    assert((tx * tx + tz * tz) * r2 <= b2) by (nonlinear_arith)
        requires
            ((tx * tx + tz * tz) * r2) * s2 <= b2 * s2,
            s2 > 0,
    ;
    assert((nx * nx + nz * nz) * r2 <= (tx * tx + tz * tz) * r2) by (nonlinear_arith)
        requires
            nx * nx <= tx * tx,
            nz * nz <= tz * tz,
            r2 > 0,
    ;
}

/// Damping convergence. A body starts with no horizontal velocity and takes
/// full forward input in every tick, with an acceleration and a tick length
/// that are not negative and a damping factor strictly between zero and one,
/// where the limit `acceleration * dt / (1 - damping)` can be represented.
/// Then, after every number of ticks:
///
/// - the body has not moved sideways, and its forward speed has not fallen;
/// - the speed reached inside the next tick, before damping, is at most the
///   limit;
/// - the speed after damping is at most the limit times the damping factor;
/// - what the speed still lacks to the limit shrinks by the damping factor
///   in every tick, but for less than one raw unit of rounding;
/// - from `settling_ticks` on, the speed stays as it is, and the speed
///   reached inside a tick is less than `1 / (1 - damping)` raw units below
///   the limit.
pub proof fn lemma_damping_convergence(
    body: CharacterMotion,
    damping: MovementDampingFactor,
    dt: Scalar,
    n: nat,
)
    requires
        body.linear_velocity.x@ == 0,
        body.linear_velocity.z@ == 0,
        body.acceleration.0@ >= 0,
        dt@ >= 0,
        0 < damping.0@ < SCALE,
        SCALE * push(body.acceleration.0@, dt@) <= (SCALE - damping.0@) * i64::MAX,
    ensures
        ({
            let step = push(body.acceleration.0@, dt@);
            let rest = SCALE - damping.0@;
            let speed = forward_speed(body, damping, dt, n);
            let next = forward_speed(body, damping, dt, n + 1);
            &&& forward_ticks(body, damping, dt, n).linear_velocity.x@ == 0
            &&& 0 <= speed <= next
            &&& (speed + step) * rest <= SCALE * step
            &&& next * rest <= damping.0@ * step
            &&& 0 <= gap(next, step, damping.0@)
            &&& SCALE * gap(next, step, damping.0@) < damping.0@ * gap(speed, step, damping.0@)
                + SCALE * rest
            &&& n >= settling_ticks(body.acceleration.0@, dt@, damping.0@) ==> {
                &&& next == speed
                &&& gap(speed, step, damping.0@) < SCALE
            }
        }),
{
    let step = push(body.acceleration.0@, dt@);
    let d = damping.0@;
    let rest = SCALE - d;
    lemma_ticks_follow_recurrence(body, damping, dt, n);
    lemma_ticks_follow_recurrence(body, damping, dt, n + 1);
    assert(step >= 0) by {
        assert(body.acceleration.0@ * dt@ >= 0) by (nonlinear_arith)
            requires
                body.acceleration.0@ >= 0,
                dt@ >= 0,
        ;
        lemma_trunc_div_bounds(body.acceleration.0@ * dt@, SCALE as int);
    }
    lemma_speed_climbs(n, step, d);
    lemma_speed_climbs(n + 1, step, d);
    if n >= settling_ticks(body.acceleration.0@, dt@, d) {
        let next = -z_after(n + 1, step, d);
        lemma_speed_rests_or_climbs(n, step, d);
        assert(0 <= d * step) by (nonlinear_arith)
            requires
                0 <= step,
                0 < d,
        ;
        if next >= n + 1 {
            assert(next <= (d * step) / rest) by {
                vstd::arithmetic::div_mod::lemma_div_is_ordered(next * rest, d * step, rest);
                vstd::arithmetic::div_mod::lemma_div_by_multiple(next, rest);
            }
        }
        lemma_resting_speed(n, step, d);
    }
}

} // verus!
