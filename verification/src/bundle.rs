//! The controller factory: everything a body needs to be steered, built in
//! one step from its collision shape.
//!
//! A bundle is complete as soon as it exists: body kind, collision shape,
//! ground probe, locked axes and tuning are all set by `new`, and
//! `with_movement` replaces the tuning as a whole.

use crate::physics::{Collider, LockedAxes, Quaternion, RigidBody, ShapeCaster};
use crate::profile::MovementBundle;
use crate::scalar::{fixed_mul, Scalar, SCALE};
use crate::vector::Vector3;
use vstd::prelude::*;

verus! {

/// The tag of a body that the player steers.
#[derive(Clone, Copy, Debug, PartialEq, Eq, Structural)]
pub struct CharacterController;

/// The tag of a body that steers itself.
#[derive(Clone, Copy, Debug, PartialEq, Eq, Structural)]
pub struct NPCController;

/// The tag of a body that was launched and flies on its own.
#[derive(Clone, Copy, Debug, PartialEq, Eq, Structural)]
pub struct ProjectileController;

/// The scale of the ground probe relative to the collision shape: one
/// hundredth short of one, so that the probe does not start in contact with
/// what the body already touches sideways.
pub const PROBE_SHRINK: i64 = 990_000_000;

/// How far below the body the ground probe reaches: a fifth of a unit.
pub const PROBE_REACH: i64 = 200_000_000;

/// The number of subdivisions with which the physics world approximates a
/// probe shape that it cannot scale exactly.
pub const PROBE_SUBDIVISIONS: u32 = 10;

/// The lock bits of a body that cannot rotate at all.
pub const ROTATION_LOCKED: u8 = 0b000_111;

/// The lock bits of a body that can turn around the vertical axis but can
/// neither roll nor pitch.
pub const UPRIGHT_LOCKED: u8 = 0b000_101;

/// The ground probe of a body with the given collision shape: the same
/// outline at ninety-nine hundredths of its scale, swept straight down from
/// the centre of the body over a fifth of a unit.
pub open spec fn probe_of(collider: Collider) -> ShapeCaster {
    ShapeCaster {
        shape: Collider {
            shape: collider.shape,
            scale: collider.scale.scaled(Scalar { raw: PROBE_SHRINK }),
        },
        origin: Vector3 { x: Scalar { raw: 0 }, y: Scalar { raw: 0 }, z: Scalar { raw: 0 } },
        shape_rotation: Quaternion {
            x: Scalar { raw: 0 },
            y: Scalar { raw: 0 },
            z: Scalar { raw: 0 },
            w: Scalar { raw: SCALE },
        },
        direction: Vector3 {
            x: Scalar { raw: 0 },
            y: Scalar::saturated(-SCALE),
            z: Scalar { raw: 0 },
        },
        max_distance: Scalar { raw: PROBE_REACH },
    }
}

/// Builds the ground probe for a collision shape.
///
/// A shape that takes up no room gives a probe that takes up no room, and
/// such a probe never reports ground: whoever builds a controller has to
/// pass a shape with positive extents. A shape that takes up room gives a
/// probe that does, unless a component of its scale is the smallest
/// positive scalar, which shrinking rounds to zero.
pub fn ground_probe(collider: &Collider) -> (r: ShapeCaster)
    ensures
        r == probe_of(*collider),
        collider.degenerate() ==> r.shape.degenerate(),
        !collider.degenerate() && collider.scale.x@ >= 2 && collider.scale.y@ >= 2
            && collider.scale.z@ >= 2 ==> !r.shape.degenerate(),
{
    let mut caster_shape = *collider;
    caster_shape.set_scale(collider.scale.scale(Scalar { raw: PROBE_SHRINK }));
    proof {
        lemma_shrunk_scale(collider.scale.x@);
        lemma_shrunk_scale(collider.scale.y@);
        lemma_shrunk_scale(collider.scale.z@);
    }
    ShapeCaster::new(
        caster_shape,
        Vector3::zero(),
        Quaternion::identity(),
        Vector3 { x: Scalar::zero(), y: Scalar { raw: -SCALE }, z: Scalar::zero() },
    ).with_max_distance(Scalar { raw: PROBE_REACH })
}

/// Shrinking keeps the sign of a scale, but for the smallest positive
/// scale, which it rounds to zero.
pub proof fn lemma_shrunk_scale(scale: int)
    requires
        i64::MIN <= scale <= i64::MAX,
    ensures
        scale <= 0 ==> fixed_mul(scale, PROBE_SHRINK as int) <= 0,
        scale >= 2 ==> fixed_mul(scale, PROBE_SHRINK as int) > 0,
{
}

/// The complete description of a body that the player steers.
#[derive(Clone, Copy, Debug, PartialEq, Eq, Structural)]
pub struct CharacterControllerBundle {
    pub character_controller: CharacterController,
    pub rigid_body: RigidBody,
    pub collider: Collider,
    pub ground_caster: ShapeCaster,
    pub locked_axes: LockedAxes,
    pub movement: MovementBundle,
}

/// The complete description of a body that steers itself.
#[derive(Clone, Copy, Debug, PartialEq, Eq, Structural)]
pub struct NPCControllerBundle {
    pub npc_controller: NPCController,
    pub rigid_body: RigidBody,
    pub collider: Collider,
    pub ground_caster: ShapeCaster,
    pub locked_axes: LockedAxes,
    pub movement: MovementBundle,
}

/// The complete description of a launched body. It is the only kind of
/// controller that can start with a velocity.
#[derive(Clone, Copy, Debug, PartialEq, Eq, Structural)]
pub struct ProjectileControllerBundle {
    pub projectile_controller: ProjectileController,
    pub rigid_body: RigidBody,
    pub collider: Collider,
    pub ground_caster: ShapeCaster,
    pub locked_axes: LockedAxes,
    pub movement: MovementBundle,
    pub linear_velocity: Vector3,
}

impl CharacterControllerBundle {
    /// A dynamic body with the given collision shape, its ground probe, all
    /// three rotations locked and the standard tuning.
    pub fn new(collider: Collider) -> (r: CharacterControllerBundle)
        ensures
            r.rigid_body == RigidBody::Dynamic,
            r.collider == collider,
            r.ground_caster == probe_of(collider),
            r.locked_axes.bits() == ROTATION_LOCKED,
            r.locked_axes.rotation_x_locked(),
            r.locked_axes.rotation_y_locked(),
            r.locked_axes.rotation_z_locked(),
            !r.locked_axes.translation_locked(),
            r.movement == MovementBundle::standard(),
    {
        proof {
            assert(0b000_111u8 & 0b000_100 != 0) by (bit_vector);
            assert(0b000_111u8 & 0b000_010 != 0) by (bit_vector);
            assert(0b000_111u8 & 0b000_001 != 0) by (bit_vector);
            assert(0b000_111u8 & 0b111_000 == 0) by (bit_vector);
        }
        CharacterControllerBundle {
            character_controller: CharacterController,
            rigid_body: RigidBody::Dynamic,
            collider,
            ground_caster: ground_probe(&collider),
            locked_axes: LockedAxes::from_bits(ROTATION_LOCKED),
            movement: MovementBundle::default(),
        }
    }

    /// The same body with its tuning replaced.
    pub fn with_movement(
        self,
        acceleration: Scalar,
        damping: Scalar,
        jump_impulse: Scalar,
        max_slope_angle: Scalar,
    ) -> (r: CharacterControllerBundle)
        ensures
            r == (CharacterControllerBundle {
                movement: MovementBundle::new_spec(
                    acceleration,
                    damping,
                    jump_impulse,
                    max_slope_angle,
                ),
                ..self
            }),
    {
        let mut bundle = self;
        bundle.movement = MovementBundle::new(acceleration, damping, jump_impulse, max_slope_angle);
        bundle
    }
}

impl NPCControllerBundle {
    /// A dynamic body with the given collision shape, its ground probe, roll
    /// and pitch locked, and the standard tuning. It can still turn around
    /// the vertical axis.
    pub fn new(collider: Collider) -> (r: NPCControllerBundle)
        ensures
            r.rigid_body == RigidBody::Dynamic,
            r.collider == collider,
            r.ground_caster == probe_of(collider),
            r.locked_axes.bits() == UPRIGHT_LOCKED,
            r.locked_axes.rotation_x_locked(),
            !r.locked_axes.rotation_y_locked(),
            r.locked_axes.rotation_z_locked(),
            !r.locked_axes.translation_locked(),
            r.movement == MovementBundle::standard(),
    {
        proof {
            assert(0b000_101u8 & 0b000_100 != 0) by (bit_vector);
            assert(0b000_101u8 & 0b000_010 == 0) by (bit_vector);
            assert(0b000_101u8 & 0b000_001 != 0) by (bit_vector);
            assert(0b000_101u8 & 0b111_000 == 0) by (bit_vector);
        }
        NPCControllerBundle {
            npc_controller: NPCController,
            rigid_body: RigidBody::Dynamic,
            collider,
            ground_caster: ground_probe(&collider),
            locked_axes: LockedAxes::from_bits(UPRIGHT_LOCKED),
            movement: MovementBundle::default(),
        }
    }

    /// The same body with its tuning replaced.
    pub fn with_movement(
        self,
        acceleration: Scalar,
        damping: Scalar,
        jump_impulse: Scalar,
        max_slope_angle: Scalar,
    ) -> (r: NPCControllerBundle)
        ensures
            r == (NPCControllerBundle {
                movement: MovementBundle::new_spec(
                    acceleration,
                    damping,
                    jump_impulse,
                    max_slope_angle,
                ),
                ..self
            }),
    {
        let mut bundle = self;
        bundle.movement = MovementBundle::new(acceleration, damping, jump_impulse, max_slope_angle);
        bundle
    }
}

impl ProjectileControllerBundle {
    /// A dynamic body at rest with the given collision shape, its ground
    /// probe, roll and pitch locked, and the standard tuning.
    pub fn new(collider: Collider) -> (r: ProjectileControllerBundle)
        ensures
            r.rigid_body == RigidBody::Dynamic,
            r.collider == collider,
            r.ground_caster == probe_of(collider),
            r.locked_axes.bits() == UPRIGHT_LOCKED,
            r.locked_axes.rotation_x_locked(),
            !r.locked_axes.rotation_y_locked(),
            r.locked_axes.rotation_z_locked(),
            !r.locked_axes.translation_locked(),
            r.movement == MovementBundle::standard(),
            r.linear_velocity.x@ == 0,
            r.linear_velocity.y@ == 0,
            r.linear_velocity.z@ == 0,
    {
        proof {
            assert(0b000_101u8 & 0b000_100 != 0) by (bit_vector);
            assert(0b000_101u8 & 0b000_010 == 0) by (bit_vector);
            assert(0b000_101u8 & 0b000_001 != 0) by (bit_vector);
            assert(0b000_101u8 & 0b111_000 == 0) by (bit_vector);
        }
        ProjectileControllerBundle {
            projectile_controller: ProjectileController,
            rigid_body: RigidBody::Dynamic,
            collider,
            ground_caster: ground_probe(&collider),
            locked_axes: LockedAxes::from_bits(UPRIGHT_LOCKED),
            movement: MovementBundle::default(),
            linear_velocity: Vector3::zero(),
        }
    }

    /// The same body with its tuning replaced and launched at
    /// `initial_velocity`.
    pub fn with_movement(
        self,
        acceleration: Scalar,
        damping: Scalar,
        jump_impulse: Scalar,
        max_slope_angle: Scalar,
        initial_velocity: Vector3,
    ) -> (r: ProjectileControllerBundle)
        ensures
            r == (ProjectileControllerBundle {
                movement: MovementBundle::new_spec(
                    acceleration,
                    damping,
                    jump_impulse,
                    max_slope_angle,
                ),
                linear_velocity: initial_velocity,
                ..self
            }),
    {
        let mut bundle = self;
        bundle.movement = MovementBundle::new(acceleration, damping, jump_impulse, max_slope_angle);
        bundle.linear_velocity = initial_velocity;
        bundle
    }
}

} // verus!
