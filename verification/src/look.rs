//! The look controller: pointer motion to yaw and pitch.
//!
//! Angles are fixed-point radians. Yaw is free; pitch is held inside a limit
//! that stays short of a right angle, so that the orientation rebuilt from
//! yaw, then pitch, then zero roll never reaches its singularity.

use crate::scalar::{clamp_between, fixed_mul, fixed_neg, fixed_sub, Scalar};
use crate::vector::Vector2;
use vstd::prelude::*;

verus! {

/// Pointer gains: `x` turns pointer motion into yaw, `y` into pitch.
#[derive(Clone, Copy, Debug, PartialEq, Eq, Structural)]
pub struct CameraSensitivity(pub Vector2);

impl Default for CameraSensitivity {
    /// Three thousandths of a radian of yaw and two thousandths of pitch per
    /// unit of pointer motion.
    fn default() -> (r: CameraSensitivity)
        ensures
            r.0.x@ == 3_000_000,
            r.0.y@ == 2_000_000,
    {
        CameraSensitivity(Vector2 { x: Scalar { raw: 3_000_000 }, y: Scalar { raw: 2_000_000 } })
    }
}

/// How the viewpoint is steered, which decides how far it may pitch.
#[derive(Clone, Copy, Debug, PartialEq, Eq, Structural)]
pub enum LookStrategy {
    /// Yaw and pitch are composed directly into the body's orientation.
    FirstPerson,
    /// The camera orbits a fixed pivot and keeps looking at it.
    PivotOrbit,
}

impl LookStrategy {
    /// The pitch limit in raw units: a right angle less a hundredth of a
    /// radian in first person, an eighth of a turn around a pivot.
    pub open spec fn limit(self) -> int {
        match self {
            LookStrategy::FirstPerson => 1_560_796_326,
            LookStrategy::PivotOrbit => 785_398_163,
        }
    }

    /// The largest magnitude the pitch may take.
    pub fn pitch_limit(self) -> (r: Scalar)
        ensures
            r@ == self.limit(),
            0 < r@ < 1_570_796_326,
    {
        match self {
            LookStrategy::FirstPerson => Scalar { raw: 1_560_796_326 },
            LookStrategy::PivotOrbit => Scalar { raw: 785_398_163 },
        }
    }
}

/// Yaw and pitch of a viewpoint, in radians; roll is always zero.
#[derive(Clone, Copy, Debug, PartialEq, Eq, Structural)]
pub struct Orientation {
    pub yaw: Scalar,
    pub pitch: Scalar,
}

impl Orientation {
    /// The pitch lies inside the limit of `strategy`.
    pub open spec fn within(self, strategy: LookStrategy) -> bool {
        -strategy.limit() <= self.pitch@ <= strategy.limit()
    }
}

/// What one tick of pointer motion does to a viewpoint.
#[derive(Clone, Copy, Debug, PartialEq, Eq, Structural)]
pub struct LookUpdate {
    /// The yaw step asked for by the pointer.
    pub delta_yaw: Scalar,
    /// The pitch step asked for by the pointer, before any limit.
    pub delta_pitch: Scalar,
    /// The orientation after the step, with the pitch limit applied.
    pub orientation: Orientation,
}

/// The yaw after pointer motion `dx` at gain `gain`.
pub open spec fn yaw_after(yaw: int, dx: int, gain: int) -> int {
    fixed_sub(yaw, fixed_mul(dx, gain))
}

/// The pitch after pointer motion `dy` at gain `gain`, held inside `limit`.
pub open spec fn pitch_after(pitch: int, dy: int, gain: int, limit: int) -> int {
    clamp_between(fixed_sub(pitch, fixed_mul(dy, gain)), -limit, limit)
}

/// Turns the pointer motion accumulated since the last tick into a new
/// orientation.
///
/// Nothing happens, and `None` is returned, when there is no player to take
/// the sensitivity from, no camera to turn, or no motion at all.
pub fn player_look(
    delta: Vector2,
    sensitivity: Option<CameraSensitivity>,
    camera: Option<Orientation>,
    strategy: LookStrategy,
) -> (r: Option<LookUpdate>)
    ensures
        r.is_some() <==> sensitivity.is_some() && camera.is_some() && !(delta.x@ == 0 && delta.y@
            == 0),
        r matches Some(update) ==> {
            let gain = sensitivity.unwrap().0;
            let before = camera.unwrap();
            &&& update.delta_yaw@ == fixed_neg(fixed_mul(delta.x@, gain.x@))
            &&& update.delta_pitch@ == fixed_neg(fixed_mul(delta.y@, gain.y@))
            &&& update.orientation.yaw@ == yaw_after(before.yaw@, delta.x@, gain.x@)
            &&& update.orientation.pitch@ == pitch_after(
                before.pitch@,
                delta.y@,
                gain.y@,
                strategy.limit(),
            )
            &&& update.orientation.within(strategy)
        },
{
    let gain = match sensitivity {
        Some(s) => s.0,
        None => {
            return None;
        },
    };
    let before = match camera {
        Some(o) => o,
        None => {
            return None;
        },
    };
    if delta.is_zero() {
        return None;
    }
    let turn = delta.x.saturating_mul(gain.x);
    let tilt = delta.y.saturating_mul(gain.y);
    let limit = strategy.pitch_limit();
    let pitch = before.pitch.saturating_sub(tilt).clamp(limit.saturating_neg(), limit);
    Some(
        LookUpdate {
            delta_yaw: turn.saturating_neg(),
            delta_pitch: tilt.saturating_neg(),
            orientation: Orientation { yaw: before.yaw.saturating_sub(turn), pitch },
        },
    )
}

/// The pitch never leaves its limit, whatever the pointer does and wherever
/// the pitch started.
pub proof fn lemma_pitch_stays_within(pitch: int, dy: int, gain: int, limit: int)
    requires
        limit >= 0,
    ensures
        -limit <= pitch_after(pitch, dy, gain, limit) <= limit,
{
}

/// Once a pitch inside the limit has been driven onto either bound, one more
/// tick of the same pointer motion leaves it on that bound.
pub proof fn lemma_pitch_clamp_idempotent(pitch: int, dy: int, gain: int, limit: int)
    requires
        0 <= limit <= i64::MAX,
        -limit <= pitch <= limit,
    ensures
        ({
            let once = pitch_after(pitch, dy, gain, limit);
            once == -limit || once == limit ==> pitch_after(once, dy, gain, limit) == once
        }),
{
}

} // verus!
