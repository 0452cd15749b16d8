//! What a controller asks of the physics world: a rigid body, a collision
//! shape, a downward probe and a set of locked axes.
//!
//! These are descriptions. The physics world builds its own bodies, shapes
//! and casters from them, runs the probe, and integrates velocities into
//! positions.

use crate::scalar::{Scalar, SCALE};
use crate::vector::Vector3;
use vstd::prelude::*;

verus! {

/// How the physics world moves a body.
#[derive(Clone, Copy, Debug, PartialEq, Eq, Structural)]
pub enum RigidBody {
    /// Moved by forces, contacts and its own velocity.
    Dynamic,
    /// Never moves.
    Static,
    /// Moved by its velocity alone.
    Kinematic,
}

/// A rotation in space.
#[derive(Clone, Copy, Debug, PartialEq, Eq, Structural)]
pub struct Quaternion {
    pub x: Scalar,
    pub y: Scalar,
    pub z: Scalar,
    pub w: Scalar,
}

impl Quaternion {
    /// No rotation at all.
    pub fn identity() -> (r: Quaternion)
        ensures
            r.x@ == 0,
            r.y@ == 0,
            r.z@ == 0,
            r.w@ == SCALE,
    {
        Quaternion { x: Scalar::zero(), y: Scalar::zero(), z: Scalar::zero(), w: Scalar::one() }
    }
}

/// The axes along and around which a body cannot move, one bit each: from
/// the top, translation along `x`, `y`, `z`, then rotation around `x`, `y`,
/// `z`.
#[derive(Clone, Copy, Debug, PartialEq, Eq, Structural)]
pub struct LockedAxes {
    bits: u8,
}

impl LockedAxes {
    /// The six bits.
    pub closed spec fn bits(self) -> u8 {
        self.bits
    }

    /// Rotation around `x` is locked.
    pub open spec fn rotation_x_locked(self) -> bool {
        self.bits() & 0b000_100 != 0
    }

    /// Rotation around `y`, the vertical axis, is locked.
    pub open spec fn rotation_y_locked(self) -> bool {
        self.bits() & 0b000_010 != 0
    }

    /// Rotation around `z` is locked.
    pub open spec fn rotation_z_locked(self) -> bool {
        self.bits() & 0b000_001 != 0
    }

    /// Translation along any axis is locked.
    pub open spec fn translation_locked(self) -> bool {
        self.bits() & 0b111_000 != 0
    }

    /// The locks with the given bits.
    pub fn from_bits(bits: u8) -> (r: LockedAxes)
        ensures
            r.bits() == bits,
    {
        LockedAxes { bits }
    }

    /// The locks as bits.
    pub fn to_bits(&self) -> (r: u8)
        ensures
            r == self.bits(),
    {
        self.bits
    }

    /// Whether rotation around `x` is locked.
    pub fn is_rotation_x_locked(&self) -> (r: bool)
        ensures
            r == self.rotation_x_locked(),
    {
        (self.bits & 0b000_100) != 0
    }

    /// Whether rotation around `y` is locked.
    pub fn is_rotation_y_locked(&self) -> (r: bool)
        ensures
            r == self.rotation_y_locked(),
    {
        (self.bits & 0b000_010) != 0
    }

    /// Whether rotation around `z` is locked.
    pub fn is_rotation_z_locked(&self) -> (r: bool)
        ensures
            r == self.rotation_z_locked(),
    {
        (self.bits & 0b000_001) != 0
    }
}

/// The outline of a collision shape before scaling.
#[derive(Clone, Copy, Debug, PartialEq, Eq, Structural)]
pub enum ColliderShape {
    /// A cylinder of the given length along `y`, closed by two half balls.
    Capsule { radius: Scalar, length: Scalar },
    /// A box with the given side lengths.
    Cuboid { x_length: Scalar, y_length: Scalar, z_length: Scalar },
    /// A ball.
    Sphere { radius: Scalar },
}

impl ColliderShape {
    /// Every extent of the outline is positive.
    pub open spec fn positive(self) -> bool {
        match self {
            ColliderShape::Capsule { radius, length } => radius@ > 0 && length@ > 0,
            ColliderShape::Cuboid { x_length, y_length, z_length } => x_length@ > 0 && y_length@
                > 0 && z_length@ > 0,
            ColliderShape::Sphere { radius } => radius@ > 0,
        }
    }
}

/// A collision shape: an outline and the scale at which it is used.
#[derive(Clone, Copy, Debug, PartialEq, Eq, Structural)]
pub struct Collider {
    pub shape: ColliderShape,
    pub scale: Vector3,
}

impl Collider {
    /// The shape takes up no room: an extent of its outline, or a component
    /// of its scale, is zero or negative. A probe of such a shape never
    /// reports a contact.
    pub open spec fn degenerate(self) -> bool {
        !self.shape.positive() || self.scale.x@ <= 0 || self.scale.y@ <= 0 || self.scale.z@ <= 0
    }

    /// The collider with the given outline at scale one.
    pub open spec fn unscaled(shape: ColliderShape) -> Collider {
        Collider {
            shape,
            scale: Vector3 {
                x: Scalar { raw: SCALE },
                y: Scalar { raw: SCALE },
                z: Scalar { raw: SCALE },
            },
        }
    }

    /// A collider with the given outline at scale one.
    pub fn new(shape: ColliderShape) -> (r: Collider)
        ensures
            r == Collider::unscaled(shape),
    {
        Collider { shape, scale: Vector3::splat(Scalar::one()) }
    }

    /// A collider with the given outline at scale one, or `None` where an
    /// extent of the outline is zero or negative.
    pub fn try_new(shape: ColliderShape) -> (r: Option<Collider>)
        ensures
            r == (if shape.positive() {
                Some(Collider::unscaled(shape))
            } else {
                None
            }),
    {
        let collider = Collider::new(shape);
        if collider.is_degenerate() {
            None
        } else {
            Some(collider)
        }
    }

    /// A capsule at scale one.
    pub fn capsule(radius: Scalar, length: Scalar) -> (r: Collider)
        ensures
            r == Collider::unscaled(ColliderShape::Capsule { radius, length }),
    {
        Collider::new(ColliderShape::Capsule { radius, length })
    }

    /// A box at scale one.
    pub fn cuboid(x_length: Scalar, y_length: Scalar, z_length: Scalar) -> (r: Collider)
        ensures
            r == Collider::unscaled(ColliderShape::Cuboid { x_length, y_length, z_length }),
    {
        Collider::new(ColliderShape::Cuboid { x_length, y_length, z_length })
    }

    /// A ball at scale one.
    pub fn sphere(radius: Scalar) -> (r: Collider)
        ensures
            r == Collider::unscaled(ColliderShape::Sphere { radius }),
    {
        Collider::new(ColliderShape::Sphere { radius })
    }

    /// Sets the scale at which the outline is used.
    pub fn set_scale(&mut self, scale: Vector3)
        ensures
            final(self).shape == old(self).shape,
            final(self).scale == scale,
    {
        self.scale = scale;
    }

    /// Whether the shape takes up no room.
    pub fn is_degenerate(&self) -> (r: bool)
        ensures
            r == self.degenerate(),
    {
        let positive = match self.shape {
            ColliderShape::Capsule { radius, length } => radius.raw > 0 && length.raw > 0,
            ColliderShape::Cuboid { x_length, y_length, z_length } => x_length.raw > 0
                && y_length.raw > 0 && z_length.raw > 0,
            ColliderShape::Sphere { radius } => radius.raw > 0,
        };
        !positive || self.scale.x.raw <= 0 || self.scale.y.raw <= 0 || self.scale.z.raw <= 0
    }
}

/// A probe that sweeps a shape along a direction and reports what it meets.
#[derive(Clone, Copy, Debug, PartialEq, Eq, Structural)]
pub struct ShapeCaster {
    /// The shape that is swept.
    pub shape: Collider,
    /// Where the sweep starts, relative to the body.
    pub origin: Vector3,
    /// How the shape is turned, relative to the body.
    pub shape_rotation: Quaternion,
    /// The direction of the sweep, relative to the body.
    pub direction: Vector3,
    /// How far the shape travels at most.
    pub max_distance: Scalar,
}

impl ShapeCaster {
    /// A probe that sweeps `shape` from `origin` along `direction`, as far as
    /// a distance can be told.
    pub fn new(shape: Collider, origin: Vector3, shape_rotation: Quaternion, direction: Vector3) -> (r:
        ShapeCaster)
        ensures
            r.shape == shape,
            r.origin == origin,
            r.shape_rotation == shape_rotation,
            r.direction == direction,
            r.max_distance@ == i64::MAX,
    {
        ShapeCaster {
            shape,
            origin,
            shape_rotation,
            direction,
            max_distance: Scalar { raw: i64::MAX },
        }
    }

    /// The same probe with its reach cut to `max_distance`.
    pub fn with_max_distance(self, max_distance: Scalar) -> (r: ShapeCaster)
        ensures
            r.shape == self.shape,
            r.origin == self.origin,
            r.shape_rotation == self.shape_rotation,
            r.direction == self.direction,
            r.max_distance == max_distance,
    {
        ShapeCaster {
            shape: self.shape,
            origin: self.origin,
            shape_rotation: self.shape_rotation,
            direction: self.direction,
            max_distance,
        }
    }
}

} // verus!
