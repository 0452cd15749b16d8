//! Movement intents: what an input source asks of the controllers in a tick.

use crate::scalar::SCALE;
use crate::vector::Vector2;
use vstd::prelude::*;

verus! {

/// A request to change the motion of the controlled characters. It is made by
/// an input stage, read by the integrator within the same tick, and then
/// dropped.
#[derive(Clone, Copy, Debug, PartialEq, Eq, Structural)]
pub enum MovementAction {
    /// Accelerate along a direction in the horizontal plane.
    Move(Vector2),
    /// Jump, if standing on the ground.
    Jump,
}

impl MovementAction {
    /// A `Move` carries a direction no longer than one.
    pub open spec fn well_formed(self) -> bool {
        self matches MovementAction::Move(direction) ==> direction.length_squared() <= SCALE
            * SCALE
    }

    /// The intent is a `Move` at full input: its direction is as long as
    /// one, to within eight raw units, and no longer.
    pub open spec fn is_full_move(self) -> bool {
        self matches MovementAction::Move(direction) && (SCALE - 8) * (SCALE - 8)
            < direction.length_squared() <= SCALE * SCALE
    }
}

} // verus!
