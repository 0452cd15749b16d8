//! The tuning of a controller: how hard it accelerates, how fast it slows
//! down, how high it jumps and how steep a slope it can stand on.

use crate::scalar::{Scalar, SCALE};
use vstd::prelude::*;

verus! {

/// The acceleration used for character movement, in units per second squared.
#[derive(Clone, Copy, Debug, PartialEq, Eq, Structural)]
pub struct MovementAcceleration(pub Scalar);

/// The share of its horizontal velocity that a body keeps from one tick to
/// the next.
#[derive(Clone, Copy, Debug, PartialEq, Eq, Structural)]
pub struct MovementDampingFactor(pub Scalar);

/// The vertical speed that a jump gives, in units per second.
#[derive(Clone, Copy, Debug, PartialEq, Eq, Structural)]
pub struct JumpImpulse(pub Scalar);

/// The steepest slope, in radians from level, that still counts as ground.
#[derive(Clone, Copy, Debug, PartialEq, Eq, Structural)]
pub struct MaxSlopeAngle(pub Scalar);

/// The movement tuning of one controller.
#[derive(Clone, Copy, Debug, PartialEq, Eq, Structural)]
pub struct MovementBundle {
    pub acceleration: MovementAcceleration,
    pub damping: MovementDampingFactor,
    pub jump_impulse: JumpImpulse,
    pub max_slope_angle: MaxSlopeAngle,
}

impl MovementBundle {
    /// The tuning makes sense: the acceleration is positive, the damping
    /// factor is above zero and at most one, the slope limit is not negative.
    pub open spec fn well_formed(self) -> bool {
        &&& self.acceleration.0@ > 0
        &&& 0 < self.damping.0@ <= SCALE
        &&& self.max_slope_angle.0@ >= 0
    }

    /// The tuning of a controller that was given none: acceleration 30,
    /// damping factor 0.9, jump impulse 7 and a slope limit of 0.45 of a
    /// half turn.
    pub open spec fn standard() -> MovementBundle {
        MovementBundle {
            acceleration: MovementAcceleration(Scalar { raw: 30_000_000_000 }),
            damping: MovementDampingFactor(Scalar { raw: 900_000_000 }),
            jump_impulse: JumpImpulse(Scalar { raw: 7_000_000_000 }),
            max_slope_angle: MaxSlopeAngle(Scalar { raw: 1_413_716_694 }),
        }
    }

    /// The tuning with the given values.
    pub open spec fn new_spec(
        acceleration: Scalar,
        damping: Scalar,
        jump_impulse: Scalar,
        max_slope_angle: Scalar,
    ) -> MovementBundle {
        MovementBundle {
            acceleration: MovementAcceleration(acceleration),
            damping: MovementDampingFactor(damping),
            jump_impulse: JumpImpulse(jump_impulse),
            max_slope_angle: MaxSlopeAngle(max_slope_angle),
        }
    }

    /// The tuning with the given values, taken as they are.
    pub fn new(
        acceleration: Scalar,
        damping: Scalar,
        jump_impulse: Scalar,
        max_slope_angle: Scalar,
    ) -> (r: MovementBundle)
        ensures
            r == MovementBundle::new_spec(acceleration, damping, jump_impulse, max_slope_angle),
    {
        MovementBundle {
            acceleration: MovementAcceleration(acceleration),
            damping: MovementDampingFactor(damping),
            jump_impulse: JumpImpulse(jump_impulse),
            max_slope_angle: MaxSlopeAngle(max_slope_angle),
        }
    }

    /// The tuning with the given values, or `None` where they make no
    /// sense.
    pub fn try_new(
        acceleration: Scalar,
        damping: Scalar,
        jump_impulse: Scalar,
        max_slope_angle: Scalar,
    ) -> (r: Option<MovementBundle>)
        ensures
            r == (if MovementBundle::new_spec(
                acceleration,
                damping,
                jump_impulse,
                max_slope_angle,
            ).well_formed() {
                Some(MovementBundle::new_spec(acceleration, damping, jump_impulse, max_slope_angle))
            } else {
                None
            }),
    {
        let bundle = MovementBundle::new(acceleration, damping, jump_impulse, max_slope_angle);
        if bundle.is_well_formed() {
            Some(bundle)
        } else {
            None
        }
    }

    /// Whether the tuning makes sense.
    pub fn is_well_formed(&self) -> (r: bool)
        ensures
            r == self.well_formed(),
    {
        self.acceleration.0.raw > 0 && self.damping.0.raw > 0 && self.damping.0.raw <= SCALE
            && self.max_slope_angle.0.raw >= 0
    }
}

impl Default for MovementBundle {
    /// The standard tuning.
    fn default() -> (r: MovementBundle)
        ensures
            r == MovementBundle::standard(),
            r.well_formed(),
    {
        MovementBundle::new(
            Scalar { raw: 30_000_000_000 },
            Scalar { raw: 900_000_000 },
            Scalar { raw: 7_000_000_000 },
            Scalar { raw: 1_413_716_694 },
        )
    }
}

} // verus!
