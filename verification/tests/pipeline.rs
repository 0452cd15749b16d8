use locomotion::action::MovementAction;
use locomotion::bundle::{CharacterControllerBundle, ProjectileControllerBundle};
use locomotion::ground::{Grounded, ShapeHit};
use locomotion::input::{GroundFacingVector, KeyboardState};
use locomotion::physics::Collider;
use locomotion::pipeline::{tick, Controller, Frame};
use locomotion::profile::MovementBundle;
use locomotion::scalar::{Scalar, SCALE};
use locomotion::vector::{Vector2, Vector3};

fn raw(v: i64) -> Scalar {
    Scalar::from_raw(v)
}

fn v3(x: i64, y: i64, z: i64) -> Vector3 {
    Vector3::new(raw(x), raw(y), raw(z))
}

fn hit(angle: i64) -> ShapeHit {
    ShapeHit { slope_angle: raw(angle) }
}

fn runner(velocity: Vector3) -> Controller {
    Controller {
        // acceleration 120, damping 0.9, jump impulse 7, slope limit of 30 degrees
        movement: MovementBundle::new(raw(120 * SCALE), raw(900_000_000), raw(7 * SCALE), raw(523_598_775)),
        linear_velocity: velocity,
        grounded: None,
    }
}

fn frame(up: bool, right: bool, jump: bool, camera: bool) -> Frame {
    Frame {
        keys: KeyboardState { up, down: false, left: false, right, jump },
        camera: if camera {
            Some(GroundFacingVector(Vector2::new(raw(0), raw(-SCALE))))
        } else {
            None
        },
        delta_time: raw(16_666_666),
    }
}

#[test]
fn forward_and_jump_from_the_ground() {
    let mut bodies = vec![runner(v3(0, 0, 0))];
    tick(&frame(true, false, true, true), &vec![vec![hit(0)]], &mut bodies);
    assert_eq!(bodies[0].linear_velocity, v3(0, 7_000_000_000, -1_799_999_928));
    assert_eq!(bodies[0].grounded, Some(Grounded));
}

#[test]
fn the_tag_of_this_tick_decides_the_jump() {
    // Tagged from the tick before, but the probe found nothing now.
    let mut stale = runner(v3(0, -1_000_000_000, 0));
    stale.grounded = Some(Grounded);
    let mut bodies = vec![stale];
    tick(&frame(false, false, true, true), &vec![vec![]], &mut bodies);
    assert_eq!(bodies[0].linear_velocity, v3(0, -1_000_000_000, 0));
    assert_eq!(bodies[0].grounded, None);

    // Not tagged before, but on the ground now.
    let mut bodies = vec![runner(v3(0, -1_000_000_000, 0))];
    tick(&frame(false, false, true, true), &vec![vec![hit(100_000_000)]], &mut bodies);
    assert_eq!(bodies[0].linear_velocity, v3(0, 7_000_000_000, 0));
    assert_eq!(bodies[0].grounded, Some(Grounded));
}

#[test]
fn too_steep_a_slope_is_no_ground() {
    let mut bodies = vec![runner(v3(0, 0, 0))];
    tick(&frame(false, false, true, true), &vec![vec![hit(523_598_776)]], &mut bodies);
    assert_eq!(bodies[0].linear_velocity, v3(0, 0, 0));
    assert_eq!(bodies[0].grounded, None);
}

#[test]
fn a_body_without_a_probe_entry_hit_nothing() {
    let mut bodies = vec![runner(v3(0, 0, 0)), runner(v3(0, 0, 0))];
    tick(&frame(true, false, true, true), &vec![vec![hit(0)]], &mut bodies);
    assert_eq!(bodies[0].linear_velocity, v3(0, 7_000_000_000, -1_799_999_928));
    assert_eq!(bodies[1].linear_velocity, v3(0, 0, -1_799_999_928));
    assert_eq!(bodies[1].grounded, None);
}

#[test]
fn without_a_viewpoint_the_bodies_only_slow_down() {
    let mut bodies = vec![runner(v3(1_000_000_000, 3, -2_000_000_000))];
    tick(&frame(true, true, true, false), &vec![vec![hit(0)]], &mut bodies);
    assert_eq!(bodies[0].linear_velocity, v3(900_000_000, 3, -1_800_000_000));
    assert_eq!(bodies[0].grounded, Some(Grounded));
}

#[test]
fn diagonal_input_moves_along_both_axes() {
    let mut bodies = vec![runner(v3(0, 0, 0))];
    tick(&frame(true, true, false, true), &vec![vec![]], &mut bodies);
    // 0.707106781 * 120, times a sixtieth, times the damping factor.
    assert_eq!(bodies[0].linear_velocity, v3(1_272_792_154, 0, -1_272_792_154));
}

#[test]
fn ticks_follow_one_another() {
    let mut bodies = vec![runner(v3(0, 0, 0))];
    let mut speeds = Vec::new();
    for _ in 0..3 {
        tick(&frame(true, false, false, true), &vec![vec![hit(0)]], &mut bodies);
        speeds.push(-bodies[0].linear_velocity.z.raw());
    }
    assert_eq!(speeds, vec![1_799_999_928, 3_419_999_863, 4_877_999_804]);
}

#[test]
fn one_body_stepped_by_hand() {
    let mut body = runner(v3(0, 0, 0));
    let forward = Vector2::new(raw(0), raw(SCALE));
    body.step(&vec![hit(0)], &vec![MovementAction::Move(forward), MovementAction::Jump], raw(16_666_666));
    assert_eq!(body.linear_velocity, v3(0, 7_000_000_000, -1_799_999_928));
    assert_eq!(body.grounded, Some(Grounded));
}

#[test]
fn bodies_are_spawned_in_the_air() {
    let capsule = Collider::capsule(raw(400_000_000), raw(SCALE));
    let player = Controller::of_character(&CharacterControllerBundle::new(capsule));
    assert_eq!(player.movement, MovementBundle::default());
    assert_eq!(player.linear_velocity, v3(0, 0, 0));
    assert_eq!(player.grounded, None);

    let launched = ProjectileControllerBundle::new(Collider::sphere(raw(100_000_000))).with_movement(
        raw(0),
        raw(SCALE),
        raw(0),
        raw(0),
        v3(0, 2_000_000_000, -25_000_000_000),
    );
    let projectile = Controller::of_projectile(&launched);
    assert_eq!(projectile.movement, launched.movement);
    assert_eq!(projectile.linear_velocity, v3(0, 2_000_000_000, -25_000_000_000));
    assert_eq!(projectile.grounded, None);

    // With no damping and no acceleration a launched body keeps its velocity.
    let mut bodies = vec![projectile];
    tick(&frame(true, true, true, true), &vec![], &mut bodies);
    assert_eq!(bodies[0].linear_velocity, v3(0, 2_000_000_000, -25_000_000_000));
}
