//! One tick of the controlled bodies.
//!
//! The stages run in a fixed order, each on what the one before it left:
//! the input mapper raises the intents of the tick, the ground contact
//! detector renews the grounded tags, the integrator applies the intents,
//! and the damping stage slows the bodies down. The intents live for this
//! one tick only.
//!
//! A host with a scheduler of its own runs the stages one by one instead,
//! in the same order.

use crate::action::MovementAction;
use crate::bundle::{CharacterControllerBundle, ProjectileControllerBundle};
use crate::ground::{grounded, is_grounded, Grounded, ShapeHit};
use crate::input::{keyboard_events, keyboard_input, GroundFacingVector, KeyboardState};
use crate::movement::{CharacterMotion, DampedMotion};
use crate::profile::MovementBundle;
use crate::scalar::Scalar;
use crate::vector::Vector3;
use vstd::prelude::*;

verus! {

/// The moving state of one controlled body.
#[derive(Clone, Copy, Debug, PartialEq, Eq, Structural)]
pub struct Controller {
    pub movement: MovementBundle,
    /// The velocity of the body in world space, in units per second.
    pub linear_velocity: Vector3,
    /// The grounded tag of the last tick.
    pub grounded: Option<Grounded>,
}

/// What the host reads off its input devices and its clock for one tick.
#[derive(Clone, Copy, Debug, PartialEq, Eq, Structural)]
pub struct Frame {
    pub keys: KeyboardState,
    /// The facing vector of the active viewpoint, if there is one.
    pub camera: Option<GroundFacingVector>,
    /// The length of the tick in seconds.
    pub delta_time: Scalar,
}

impl Controller {
    /// The body with its grounded tag renewed from the hits of its probe.
    pub open spec fn probed(self, hits: Seq<ShapeHit>) -> Controller {
        Controller {
            movement: self.movement,
            linear_velocity: self.linear_velocity,
            grounded: if grounded(hits, Some(self.movement.max_slope_angle)) {
                Some(Grounded)
            } else {
                None
            },
        }
    }

    /// What the integrator reads of the body.
    pub open spec fn motion(self) -> CharacterMotion {
        CharacterMotion {
            acceleration: self.movement.acceleration,
            jump_impulse: self.movement.jump_impulse,
            linear_velocity: self.linear_velocity,
            grounded: self.grounded,
        }
    }

    /// The body after the intents of a tick.
    pub open spec fn integrated(self, events: Seq<MovementAction>, dt: Scalar) -> Controller {
        Controller {
            movement: self.movement,
            linear_velocity: self.motion().after_all(events, dt).linear_velocity,
            grounded: self.grounded,
        }
    }

    /// The body after the damping stage.
    pub open spec fn damped(self) -> Controller {
        Controller {
            movement: self.movement,
            linear_velocity: (DampedMotion {
                damping: self.movement.damping,
                linear_velocity: self.linear_velocity,
            }).damped().linear_velocity,
            grounded: self.grounded,
        }
    }

    /// The body after a whole tick: probed, then integrated, then damped.
    pub open spec fn ticked(
        self,
        hits: Seq<ShapeHit>,
        events: Seq<MovementAction>,
        dt: Scalar,
    ) -> Controller {
        self.probed(hits).integrated(events, dt).damped()
    }

    /// The state in which a player body is spawned: at rest and in the air.
    pub fn of_character(bundle: &CharacterControllerBundle) -> (r: Controller)
        ensures
            r.movement == bundle.movement,
            r.linear_velocity.x@ == 0,
            r.linear_velocity.y@ == 0,
            r.linear_velocity.z@ == 0,
            r.grounded.is_none(),
    {
        Controller { movement: bundle.movement, linear_velocity: Vector3::zero(), grounded: None }
    }

    /// The state in which a launched body is spawned: in the air, at its
    /// launch velocity.
    pub fn of_projectile(bundle: &ProjectileControllerBundle) -> (r: Controller)
        ensures
            r.movement == bundle.movement,
            r.linear_velocity == bundle.linear_velocity,
            r.grounded.is_none(),
    {
        Controller {
            movement: bundle.movement,
            linear_velocity: bundle.linear_velocity,
            grounded: None,
        }
    }

    /// Runs the ground contact detector, the integrator and the damping
    /// stage on this body.
    pub fn step(&mut self, hits: &Vec<ShapeHit>, events: &Vec<MovementAction>, dt: Scalar)
        ensures
            *final(self) == old(self).ticked(hits@, events@, dt),
    {
        self.grounded = if is_grounded(hits, Some(self.movement.max_slope_angle)) {
            Some(Grounded)
        } else {
            None
        };
        let mut motion = CharacterMotion {
            acceleration: self.movement.acceleration,
            jump_impulse: self.movement.jump_impulse,
            linear_velocity: self.linear_velocity,
            grounded: self.grounded,
        };
        motion.apply_all(events, dt);
        let mut slowed = DampedMotion {
            damping: self.movement.damping,
            linear_velocity: motion.linear_velocity,
        };
        slowed.damp();
        self.linear_velocity = slowed.linear_velocity;
    }
}

/// The hits of the probe of body `i`: those listed for it, or none where
/// the list is too short.
pub open spec fn hits_of(probes: Seq<Vec<ShapeHit>>, i: int) -> Seq<ShapeHit> {
    if 0 <= i < probes.len() {
        probes[i]@
    } else {
        Seq::empty()
    }
}

/// Runs one tick on the controlled bodies.
///
/// `probes[i]` holds what the downward probe of body `i` reported since the
/// last tick; a body without an entry is taken to have hit nothing.
pub fn tick(frame: &Frame, probes: &Vec<Vec<ShapeHit>>, controllers: &mut Vec<Controller>)
    ensures
        final(controllers).len() == old(controllers).len(),
        forall|i: int|
            0 <= i < old(controllers).len() ==> (#[trigger] final(controllers)[i]) == old(
                controllers,
            )[i].ticked(
                hits_of(probes@, i),
                keyboard_events(frame.keys, frame.camera),
                frame.delta_time,
            ),
{
    let ghost before = controllers@;
    let events = keyboard_input(&frame.keys, frame.camera);
    let nothing: Vec<ShapeHit> = Vec::new();
    let mut i: usize = 0;
    while i < controllers.len()
        invariant
            i <= controllers.len(),
            controllers.len() == before.len(),
            events@ == keyboard_events(frame.keys, frame.camera),
            nothing@ == Seq::<ShapeHit>::empty(),
            forall|k: int|
                0 <= k < i ==> (#[trigger] controllers[k]) == before[k].ticked(
                    hits_of(probes@, k),
                    events@,
                    frame.delta_time,
                ),
            forall|k: int| i <= k < before.len() ==> (#[trigger] controllers[k]) == before[k],
        decreases controllers.len() - i,
    {
        let mut controller = controllers[i];
        if i < probes.len() {
            controller.step(&probes[i], &events, frame.delta_time);
        } else {
            controller.step(&nothing, &events, frame.delta_time);
        }
        controllers.set(i, controller);
        i += 1;
    }
}

} // verus!
