use locomotion::bundle::{
    ground_probe, CharacterController, CharacterControllerBundle, NPCController,
    NPCControllerBundle, ProjectileControllerBundle, PROBE_REACH, PROBE_SHRINK, PROBE_SUBDIVISIONS,
    ROTATION_LOCKED, UPRIGHT_LOCKED,
};
use locomotion::physics::{Collider, ColliderShape, LockedAxes, Quaternion, RigidBody, ShapeCaster};
use locomotion::profile::{
    JumpImpulse, MaxSlopeAngle, MovementAcceleration, MovementBundle, MovementDampingFactor,
};
use locomotion::scalar::{Scalar, SCALE};
use locomotion::vector::Vector3;

fn raw(v: i64) -> Scalar {
    Scalar::from_raw(v)
}

fn v3(x: i64, y: i64, z: i64) -> Vector3 {
    Vector3::new(raw(x), raw(y), raw(z))
}

fn capsule() -> Collider {
    Collider::capsule(raw(400_000_000), raw(SCALE))
}

fn tuning(bundle: &MovementBundle) -> (i64, i64, i64, i64) {
    (
        bundle.acceleration.0.raw(),
        bundle.damping.0.raw(),
        bundle.jump_impulse.0.raw(),
        bundle.max_slope_angle.0.raw(),
    )
}

fn check_probe(probe: &ShapeCaster, collider: &Collider) {
    assert_eq!(probe.shape.shape, collider.shape);
    assert_eq!(probe.shape.scale, v3(990_000_000, 990_000_000, 990_000_000));
    assert_eq!(probe.origin, v3(0, 0, 0));
    assert_eq!(probe.shape_rotation, Quaternion::identity());
    assert_eq!(probe.direction, v3(0, -SCALE, 0));
    assert_eq!(probe.max_distance.raw(), 200_000_000);
}

#[test]
fn probe_constants() {
    assert_eq!(PROBE_SHRINK, 990_000_000);
    assert_eq!(PROBE_REACH, 200_000_000);
    assert_eq!(PROBE_SUBDIVISIONS, 10);
    assert_eq!(ROTATION_LOCKED, 0b000_111);
    assert_eq!(UPRIGHT_LOCKED, 0b000_101);
}

#[test]
fn default_tuning() {
    let m = MovementBundle::default();
    assert_eq!(tuning(&m), (30_000_000_000, 900_000_000, 7_000_000_000, 1_413_716_694));
    assert!(m.is_well_formed());
}

#[test]
fn tuning_is_taken_as_given() {
    let m = MovementBundle::new(raw(1), raw(2), raw(3), raw(4));
    assert_eq!(m.acceleration, MovementAcceleration(raw(1)));
    assert_eq!(m.damping, MovementDampingFactor(raw(2)));
    assert_eq!(m.jump_impulse, JumpImpulse(raw(3)));
    assert_eq!(m.max_slope_angle, MaxSlopeAngle(raw(4)));
}

#[test]
fn tuning_that_makes_no_sense_is_told_apart() {
    assert!(MovementBundle::new(raw(1), raw(1), raw(0), raw(0)).is_well_formed());
    assert!(MovementBundle::new(raw(1), raw(SCALE), raw(-5), raw(0)).is_well_formed());
    assert!(!MovementBundle::new(raw(0), raw(900_000_000), raw(7), raw(1)).is_well_formed());
    assert!(!MovementBundle::new(raw(-1), raw(900_000_000), raw(7), raw(1)).is_well_formed());
    assert!(!MovementBundle::new(raw(1), raw(0), raw(7), raw(1)).is_well_formed());
    assert!(!MovementBundle::new(raw(1), raw(-900_000_000), raw(7), raw(1)).is_well_formed());
    assert!(!MovementBundle::new(raw(1), raw(SCALE + 1), raw(7), raw(1)).is_well_formed());
    assert!(!MovementBundle::new(raw(1), raw(900_000_000), raw(7), raw(-1)).is_well_formed());
}

#[test]
fn player_bundle_is_complete() {
    let collider = capsule();
    let bundle = CharacterControllerBundle::new(collider);
    assert_eq!(bundle.character_controller, CharacterController);
    assert_eq!(bundle.rigid_body, RigidBody::Dynamic);
    assert_eq!(bundle.collider, collider);
    check_probe(&bundle.ground_caster, &collider);
    assert_eq!(bundle.locked_axes.to_bits(), 0b000_111);
    assert!(bundle.locked_axes.is_rotation_x_locked());
    assert!(bundle.locked_axes.is_rotation_y_locked());
    assert!(bundle.locked_axes.is_rotation_z_locked());
    assert_eq!(bundle.movement, MovementBundle::default());
}

#[test]
fn npc_bundle_is_complete_and_can_turn() {
    let collider = capsule();
    let bundle = NPCControllerBundle::new(collider);
    assert_eq!(bundle.npc_controller, NPCController);
    assert_eq!(bundle.rigid_body, RigidBody::Dynamic);
    assert_eq!(bundle.collider, collider);
    check_probe(&bundle.ground_caster, &collider);
    assert_eq!(bundle.locked_axes.to_bits(), 0b000_101);
    assert!(bundle.locked_axes.is_rotation_x_locked());
    assert!(!bundle.locked_axes.is_rotation_y_locked());
    assert!(bundle.locked_axes.is_rotation_z_locked());
    assert_eq!(bundle.movement, MovementBundle::default());
}

#[test]
fn projectile_bundle_starts_at_rest_until_launched() {
    let collider = Collider::sphere(raw(100_000_000));
    let bundle = ProjectileControllerBundle::new(collider);
    assert_eq!(bundle.rigid_body, RigidBody::Dynamic);
    check_probe(&bundle.ground_caster, &collider);
    assert_eq!(bundle.locked_axes.to_bits(), 0b000_101);
    assert_eq!(bundle.linear_velocity, v3(0, 0, 0));
    assert_eq!(bundle.movement, MovementBundle::default());

    let forward = v3(0, 0, -SCALE);
    let launched = bundle.with_movement(
        raw(0),
        raw(SCALE),
        raw(0),
        raw(0),
        forward.scale(Scalar::from_int(25)),
    );
    assert_eq!(launched.linear_velocity, v3(0, 0, -25_000_000_000));
    assert_eq!(tuning(&launched.movement), (0, SCALE, 0, 0));
    assert_eq!(launched.collider, bundle.collider);
    assert_eq!(launched.ground_caster, bundle.ground_caster);
    assert_eq!(launched.locked_axes, bundle.locked_axes);
}

#[test]
fn with_movement_replaces_the_tuning_and_nothing_else() {
    let bundle = CharacterControllerBundle::new(capsule());
    let tuned = bundle.with_movement(raw(120 * SCALE), raw(920_000_000), raw(7 * SCALE), raw(523_598_775));
    assert_eq!(tuning(&tuned.movement), (120_000_000_000, 920_000_000, 7_000_000_000, 523_598_775));
    assert_eq!(tuned.collider, bundle.collider);
    assert_eq!(tuned.ground_caster, bundle.ground_caster);
    assert_eq!(tuned.locked_axes, bundle.locked_axes);
    assert_eq!(tuned.rigid_body, bundle.rigid_body);

    let bundle = NPCControllerBundle::new(capsule());
    let tuned = bundle.with_movement(raw(10 * SCALE), raw(920_000_000), raw(7 * SCALE), raw(523_598_775));
    assert_eq!(tuning(&tuned.movement), (10_000_000_000, 920_000_000, 7_000_000_000, 523_598_775));
    assert_eq!(tuned.collider, bundle.collider);
    assert_eq!(tuned.ground_caster, bundle.ground_caster);
    assert_eq!(tuned.locked_axes, bundle.locked_axes);
    assert_eq!(tuned.rigid_body, bundle.rigid_body);
}

#[test]
fn probe_shrinks_whatever_scale_the_collider_has() {
    let mut collider = Collider::cuboid(raw(SCALE), raw(2 * SCALE), raw(3 * SCALE));
    collider.set_scale(v3(2 * SCALE, SCALE / 2, 3));
    let probe = ground_probe(&collider);
    assert_eq!(probe.shape.shape, collider.shape);
    assert_eq!(probe.shape.scale, v3(1_980_000_000, 495_000_000, 2));
}

#[test]
fn a_shape_without_room_gives_a_probe_without_room() {
    let flat = Collider::capsule(raw(0), raw(SCALE));
    assert!(flat.is_degenerate());
    assert!(ground_probe(&flat).shape.is_degenerate());
    assert!(CharacterControllerBundle::new(flat).ground_caster.shape.is_degenerate());

    let inside_out = Collider::cuboid(raw(SCALE), raw(-SCALE), raw(SCALE));
    assert!(inside_out.is_degenerate());
    assert!(ground_probe(&inside_out).shape.is_degenerate());

    let mut squashed = capsule();
    squashed.set_scale(v3(SCALE, 0, SCALE));
    assert!(squashed.is_degenerate());
    assert!(ground_probe(&squashed).shape.is_degenerate());

    let mut thin = capsule();
    thin.set_scale(v3(1, 1, 1));
    assert!(!thin.is_degenerate());
    assert!(ground_probe(&thin).shape.is_degenerate());

    assert!(!capsule().is_degenerate());
    assert!(!ground_probe(&capsule()).shape.is_degenerate());
}

#[test]
fn collider_outlines() {
    let one = v3(SCALE, SCALE, SCALE);
    let c = Collider::capsule(raw(1), raw(2));
    assert_eq!(c.shape, ColliderShape::Capsule { radius: raw(1), length: raw(2) });
    assert_eq!(c.scale, one);
    let c = Collider::cuboid(raw(1), raw(2), raw(3));
    assert_eq!(
        c.shape,
        ColliderShape::Cuboid { x_length: raw(1), y_length: raw(2), z_length: raw(3) }
    );
    assert_eq!(c.scale, one);
    let c = Collider::sphere(raw(5));
    assert_eq!(c.shape, ColliderShape::Sphere { radius: raw(5) });
    assert_eq!(c.scale, one);
    assert_eq!(Collider::new(ColliderShape::Sphere { radius: raw(5) }), c);
}

#[test]
fn shape_caster_reach() {
    let caster = ShapeCaster::new(capsule(), v3(1, 2, 3), Quaternion::identity(), v3(0, -SCALE, 0));
    assert_eq!(caster.max_distance.raw(), i64::MAX);
    assert_eq!(caster.origin, v3(1, 2, 3));
    let cut = caster.with_max_distance(raw(5));
    assert_eq!(cut.max_distance.raw(), 5);
    assert_eq!(cut.shape, caster.shape);
    assert_eq!(cut.origin, caster.origin);
    assert_eq!(cut.direction, caster.direction);
    assert_eq!(cut.shape_rotation, caster.shape_rotation);
}

#[test]
fn locked_axes_bits() {
    for bits in 0..=255u8 {
        let axes = LockedAxes::from_bits(bits);
        assert_eq!(axes.to_bits(), bits);
        assert_eq!(axes.is_rotation_x_locked(), bits & 0b100 != 0);
        assert_eq!(axes.is_rotation_y_locked(), bits & 0b010 != 0);
        assert_eq!(axes.is_rotation_z_locked(), bits & 0b001 != 0);
    }
}

#[test]
fn identity_rotation() {
    let q = Quaternion::identity();
    assert_eq!((q.x.raw(), q.y.raw(), q.z.raw(), q.w.raw()), (0, 0, 0, SCALE));
}

#[test]
fn checked_tuning() {
    let good = MovementBundle::try_new(raw(120 * SCALE), raw(920_000_000), raw(7 * SCALE), raw(523_598_775));
    assert_eq!(
        good,
        Some(MovementBundle::new(raw(120 * SCALE), raw(920_000_000), raw(7 * SCALE), raw(523_598_775)))
    );
    assert_eq!(MovementBundle::try_new(raw(0), raw(920_000_000), raw(7), raw(0)), None);
    assert_eq!(MovementBundle::try_new(raw(1), raw(0), raw(7), raw(0)), None);
    assert_eq!(MovementBundle::try_new(raw(1), raw(SCALE + 1), raw(7), raw(0)), None);
    assert_eq!(MovementBundle::try_new(raw(1), raw(SCALE), raw(7), raw(-1)), None);
    assert!(MovementBundle::try_new(raw(1), raw(SCALE), raw(-7), raw(0)).is_some());
}

#[test]
fn checked_collider() {
    let capsule = ColliderShape::Capsule { radius: raw(400_000_000), length: raw(SCALE) };
    assert_eq!(Collider::try_new(capsule), Some(Collider::new(capsule)));
    let flat = ColliderShape::Capsule { radius: raw(400_000_000), length: raw(0) };
    assert_eq!(Collider::try_new(flat), None);
    let thin = ColliderShape::Cuboid { x_length: raw(1), y_length: raw(1), z_length: raw(-1) };
    assert_eq!(Collider::try_new(thin), None);
    let point = ColliderShape::Sphere { radius: raw(0) };
    assert_eq!(Collider::try_new(point), None);
    let ball = ColliderShape::Sphere { radius: raw(1) };
    assert_eq!(Collider::try_new(ball), Some(Collider::sphere(raw(1))));
}
