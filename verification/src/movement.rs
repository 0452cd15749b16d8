//! The velocity integrator and the damping stage.
//!
//! The integrator applies the intents of a tick to every controlled body, in
//! the order in which they were sent. The damping stage then shrinks the two
//! horizontal components of every velocity; the vertical one is left to
//! gravity and jumps.

use crate::action::MovementAction;
use crate::ground::Grounded;
use crate::profile::{JumpImpulse, MovementAcceleration, MovementDampingFactor};
use crate::scalar::Scalar;
use crate::vector::{Vector2, Vector3};
use vstd::prelude::*;

verus! {

/// What the integrator reads and writes of one controlled body.
#[derive(Clone, Copy, Debug, PartialEq, Eq, Structural)]
pub struct CharacterMotion {
    pub acceleration: MovementAcceleration,
    pub jump_impulse: JumpImpulse,
    /// The velocity of the body in world space, in units per second.
    pub linear_velocity: Vector3,
    /// The grounded tag, as the ground contact detector left it in this tick.
    pub grounded: Option<Grounded>,
}

/// What the damping stage reads and writes of one body.
#[derive(Clone, Copy, Debug, PartialEq, Eq, Structural)]
pub struct DampedMotion {
    pub damping: MovementDampingFactor,
    /// The velocity of the body in world space, in units per second.
    pub linear_velocity: Vector3,
}

impl CharacterMotion {
    /// The body after one intent, `dt` seconds into the tick.
    ///
    /// A `Move` adds `direction.x * acceleration * dt` to the velocity along
    /// `x` and takes `direction.y * acceleration * dt` from the velocity
    /// along `z`: forward input runs toward negative `z`. A `Jump` sets the
    /// vertical velocity to the jump impulse if the body is grounded, and
    /// does nothing otherwise.
    pub open spec fn after(self, action: MovementAction, dt: Scalar) -> CharacterMotion {
        match action {
            MovementAction::Move(direction) => CharacterMotion {
                acceleration: self.acceleration,
                jump_impulse: self.jump_impulse,
                linear_velocity: Vector3 {
                    x: self.linear_velocity.x.plus(
                        direction.x.times(self.acceleration.0).times(dt),
                    ),
                    y: self.linear_velocity.y,
                    z: self.linear_velocity.z.minus(
                        direction.y.times(self.acceleration.0).times(dt),
                    ),
                },
                grounded: self.grounded,
            },
            MovementAction::Jump => if self.grounded.is_some() {
                CharacterMotion {
                    acceleration: self.acceleration,
                    jump_impulse: self.jump_impulse,
                    linear_velocity: Vector3 {
                        x: self.linear_velocity.x,
                        y: self.jump_impulse.0,
                        z: self.linear_velocity.z,
                    },
                    grounded: self.grounded,
                }
            } else {
                self
            },
        }
    }

    /// The body after a sequence of intents, applied first to last.
    pub open spec fn after_all(self, actions: Seq<MovementAction>, dt: Scalar) -> CharacterMotion
        decreases actions.len(),
    {
        if actions.len() == 0 {
            self
        } else {
            self.after_all(actions.drop_last(), dt).after(actions.last(), dt)
        }
    }

    /// Applies a run of intents to the body, first to last.
    pub fn apply_all(&mut self, actions: &Vec<MovementAction>, dt: Scalar)
        ensures
            *final(self) == old(self).after_all(actions@, dt),
    {
        let ghost before = *self;
        let mut j: usize = 0;
        while j < actions.len()
            invariant
                j <= actions.len(),
                *self == before.after_all(actions@.take(j as int), dt),
            decreases actions.len() - j,
        {
            proof {
                assert(actions@.take(j + 1).drop_last() == actions@.take(j as int));
                assert(actions@.take(j + 1).last() == actions[j as int]);
            }
            self.apply(actions[j], dt);
            j += 1;
        }
        proof {
            assert(actions@.take(actions.len() as int) == actions@);
        }
    }

    /// Applies one intent to the body.
    pub fn apply(&mut self, action: MovementAction, dt: Scalar)
        ensures
            *final(self) == old(self).after(action, dt),
    {
        match action {
            MovementAction::Move(direction) => {
                let along_x = direction.x.saturating_mul(self.acceleration.0).saturating_mul(dt);
                let along_z = direction.y.saturating_mul(self.acceleration.0).saturating_mul(dt);
                self.linear_velocity.x = self.linear_velocity.x.saturating_add(along_x);
                self.linear_velocity.z = self.linear_velocity.z.saturating_sub(along_z);
            },
            MovementAction::Jump => {
                if self.grounded.is_some() {
                    self.linear_velocity.y = self.jump_impulse.0;
                }
            },
        }
    }
}

impl DampedMotion {
    /// The body after damping: both horizontal components are multiplied by
    /// the damping factor, the vertical one is kept.
    pub open spec fn damped(self) -> DampedMotion {
        DampedMotion {
            damping: self.damping,
            linear_velocity: Vector3 {
                x: self.linear_velocity.x.times(self.damping.0),
                y: self.linear_velocity.y,
                z: self.linear_velocity.z.times(self.damping.0),
            },
        }
    }

    /// Slows the body down in the horizontal plane.
    pub fn damp(&mut self)
        ensures
            *final(self) == old(self).damped(),
    {
        self.linear_velocity.x = self.linear_velocity.x.saturating_mul(self.damping.0);
        self.linear_velocity.z = self.linear_velocity.z.saturating_mul(self.damping.0);
    }
}

/// Applies the intents of this tick to every controlled body: each intent in
/// turn, and for each intent each body in turn. `delta_time` is the length
/// of the tick in seconds.
pub fn movement(
    delta_time: Scalar,
    events: &Vec<MovementAction>,
    controllers: &mut Vec<CharacterMotion>,
)
    ensures
        final(controllers).len() == old(controllers).len(),
        forall|i: int|
            0 <= i < old(controllers).len() ==> (#[trigger] final(controllers)[i]) == old(
                controllers,
            )[i].after_all(events@, delta_time),
{
    let ghost before = controllers@;
    let mut j: usize = 0;
    while j < events.len()
        invariant
            j <= events.len(),
            controllers.len() == before.len(),
            forall|i: int|
                0 <= i < before.len() ==> (#[trigger] controllers[i]) == before[i].after_all(
                    events@.take(j as int),
                    delta_time,
                ),
        decreases events.len() - j,
    {
        let action = events[j];
        proof {
            assert(events@.take(j + 1).drop_last() == events@.take(j as int));
            assert(events@.take(j + 1).last() == action);
        }
        let mut i: usize = 0;
        while i < controllers.len()
            invariant
                i <= controllers.len(),
                j < events.len(),
                action == events[j as int],
                controllers.len() == before.len(),
                events@.take(j + 1).drop_last() == events@.take(j as int),
                events@.take(j + 1).last() == action,
                forall|k: int|
                    0 <= k < i ==> (#[trigger] controllers[k]) == before[k].after_all(
                        events@.take(j + 1),
                        delta_time,
                    ),
                forall|k: int|
                    i <= k < before.len() ==> (#[trigger] controllers[k]) == before[k].after_all(
                        events@.take(j as int),
                        delta_time,
                    ),
            decreases controllers.len() - i,
        {
            let mut controller = controllers[i];
            controller.apply(action, delta_time);
            controllers.set(i, controller);
            i += 1;
        }
        j += 1;
    }
    proof {
        assert(events@.take(events.len() as int) == events@);
    }
}

/// Slows every body down in the horizontal plane.
pub fn apply_movement_damping(bodies: &mut Vec<DampedMotion>)
    ensures
        final(bodies).len() == old(bodies).len(),
        forall|i: int|
            0 <= i < old(bodies).len() ==> (#[trigger] final(bodies)[i]) == old(
                bodies,
            )[i].damped(),
{
    let ghost before = bodies@;
    let mut i: usize = 0;
    while i < bodies.len()
        invariant
            i <= bodies.len(),
            bodies.len() == before.len(),
            forall|k: int| 0 <= k < i ==> (#[trigger] bodies[k]) == before[k].damped(),
            forall|k: int| i <= k < before.len() ==> (#[trigger] bodies[k]) == before[k],
        decreases bodies.len() - i,
    {
        let mut body = bodies[i];
        body.damp();
        bodies.set(i, body);
        i += 1;
    }
}

/// A jump sets the vertical velocity of a grounded body to exactly its jump
/// impulse and leaves an ungrounded body as it was; in neither case does it
/// touch the horizontal velocity.
pub proof fn lemma_jump_gating(body: CharacterMotion, dt: Scalar)
    ensures
        body.grounded.is_some() ==> body.after(MovementAction::Jump, dt).linear_velocity.y
            == body.jump_impulse.0,
        body.grounded.is_none() ==> body.after(MovementAction::Jump, dt) == body,
        body.after(MovementAction::Jump, dt).linear_velocity.x == body.linear_velocity.x,
        body.after(MovementAction::Jump, dt).linear_velocity.z == body.linear_velocity.z,
{
}

/// A move never touches the vertical velocity.
pub proof fn lemma_move_keeps_vertical(body: CharacterMotion, direction: Vector2, dt: Scalar)
    ensures
        body.after(MovementAction::Move(direction), dt).linear_velocity.y
            == body.linear_velocity.y,
{
}

/// Intents add up: applying two runs of intents one after the other is
/// applying the two runs joined.
pub proof fn lemma_intents_accumulate(
    body: CharacterMotion,
    first: Seq<MovementAction>,
    second: Seq<MovementAction>,
    dt: Scalar,
)
    ensures
        body.after_all(first + second, dt) == body.after_all(first, dt).after_all(second, dt),
    decreases second.len(),
{
    if second.len() == 0 {
        assert(first + second == first);
    } else {
        lemma_intents_accumulate(body, first, second.drop_last(), dt);
        assert((first + second).drop_last() == first + second.drop_last());
        assert((first + second).last() == second.last());
    }
}

/// Damping never touches the vertical velocity.
pub proof fn lemma_damping_keeps_vertical(body: DampedMotion)
    ensures
        body.damped().linear_velocity.y == body.linear_velocity.y,
{
}

} // verus!
