use locomotion::action::MovementAction;
use locomotion::movement::{apply_movement_damping, movement, CharacterMotion, DampedMotion};
use locomotion::profile::{JumpImpulse, MovementAcceleration, MovementDampingFactor};
use locomotion::scalar::{Scalar, SCALE};
use locomotion::vector::{Vector2, Vector3};

/// Runs ticks of full forward input from rest and returns, for each tick,
/// the forward speed before and after damping.
fn run(acceleration: i64, dt: i64, damping: i64, ticks: usize) -> Vec<(i64, i64)> {
    let forward = Vector2::new(Scalar::from_raw(0), Scalar::from_raw(SCALE));
    let mut velocity = Vector3::zero();
    let mut speeds = Vec::new();
    for _ in 0..ticks {
        let mut bodies = vec![CharacterMotion {
            acceleration: MovementAcceleration(Scalar::from_raw(acceleration)),
            jump_impulse: JumpImpulse(Scalar::from_raw(0)),
            linear_velocity: velocity,
            grounded: None,
        }];
        movement(Scalar::from_raw(dt), &vec![MovementAction::Move(forward)], &mut bodies);
        let pushed = bodies[0].linear_velocity;
        let mut slowed = vec![DampedMotion {
            damping: MovementDampingFactor(Scalar::from_raw(damping)),
            linear_velocity: pushed,
        }];
        apply_movement_damping(&mut slowed);
        velocity = slowed[0].linear_velocity;
        assert_eq!(velocity.x.raw(), 0);
        assert_eq!(velocity.y.raw(), 0);
        speeds.push((-pushed.z.raw(), -velocity.z.raw()));
    }
    speeds
}

#[test]
fn speed_climbs_to_the_limit_and_never_passes_it() {
    // acceleration 120, sixty ticks a second, damping 0.9: the limit is 20.
    let push = 1_999_999_920;
    let limit = 19_999_999_200;
    let speeds = run(120 * SCALE, 16_666_666, 900_000_000, 400);
    let mut last = 0;
    for (before_damping, after_damping) in speeds.iter().copied() {
        assert!(before_damping <= limit);
        assert!(after_damping * 10 <= 9 * limit);
        assert!(after_damping >= last);
        assert_eq!(before_damping, last + push);
        last = after_damping;
    }
    let (resting, _) = speeds[speeds.len() - 1];
    assert!(limit - resting < 10, "came to rest at {}", resting);
    assert_eq!(resting, 19_999_999_191);
    assert!((resting as f64 / SCALE as f64 - 20.0).abs() < 1e-6);
    assert_eq!(speeds[speeds.len() - 2], speeds[speeds.len() - 1]);
}

#[test]
fn first_ticks_from_rest() {
    let speeds = run(120 * SCALE, 16_666_666, 900_000_000, 3);
    assert_eq!(speeds[0], (1_999_999_920, 1_799_999_928));
    assert_eq!(speeds[1], (3_799_999_848, 3_419_999_863));
    assert_eq!(speeds[2], (5_419_999_783, 4_877_999_804));
}

#[test]
fn heavier_damping_gives_a_lower_limit() {
    // acceleration 30, damping 0.5: the limit is twice the push.
    let speeds = run(30 * SCALE, 20_000_000, 500_000_000, 100);
    let push = 600_000_000;
    let (resting, after) = speeds[speeds.len() - 1];
    assert!(resting <= 2 * push);
    assert!(2 * push - resting < 2);
    assert!(after <= push);
}

#[test]
fn no_acceleration_no_speed() {
    for (before, after) in run(0, 16_666_666, 900_000_000, 10) {
        assert_eq!((before, after), (0, 0));
    }
}

#[test]
fn without_damping_the_speed_has_no_limit() {
    let speeds = run(120 * SCALE, 16_666_666, SCALE, 50);
    for (i, (before, after)) in speeds.iter().copied().enumerate() {
        assert_eq!(before, after);
        assert_eq!(after, 1_999_999_920 * (i as i64 + 1));
    }
}

#[test]
fn no_move_takes_a_damped_body_past_the_limit() {
    // acceleration 120, sixty ticks a second, damping 0.9: the limit is
    // 19.9999992, and a damped body is no faster than nine tenths of it.
    let limit: i128 = 19_999_999_200;
    let start = Vector3::new(
        Scalar::from_raw(10_799_999_568),
        Scalar::from_raw(5),
        Scalar::from_raw(-14_399_999_424),
    );
    let speed = |v: Vector3| {
        let x = v.x.raw() as i128;
        let z = v.z.raw() as i128;
        x * x + z * z
    };
    assert_eq!(speed(start) * 100, 81 * limit * limit);
    let directions = [
        (0, SCALE),
        (SCALE, 0),
        (707_106_781, 707_106_781),
        (-707_106_781, -707_106_781),
        (600_000_000, -800_000_000),
        (-600_000_000, 800_000_000),
        (0, 0),
    ];
    for (x, y) in directions {
        let mut bodies = vec![CharacterMotion {
            acceleration: MovementAcceleration(Scalar::from_raw(120 * SCALE)),
            jump_impulse: JumpImpulse(Scalar::from_raw(0)),
            linear_velocity: start,
            grounded: None,
        }];
        let direction = Vector2::new(Scalar::from_raw(x), Scalar::from_raw(y));
        movement(Scalar::from_raw(16_666_666), &vec![MovementAction::Move(direction)], &mut bodies);
        let after = bodies[0].linear_velocity;
        assert!(speed(after) <= limit * limit, "{:?} gave {:?}", direction, after);
        assert_eq!(after.y.raw(), 5);
    }
    // Pushed straight along its motion the body reaches the limit exactly.
    let mut bodies = vec![CharacterMotion {
        acceleration: MovementAcceleration(Scalar::from_raw(120 * SCALE)),
        jump_impulse: JumpImpulse(Scalar::from_raw(0)),
        linear_velocity: start,
        grounded: None,
    }];
    let along = Vector2::new(Scalar::from_raw(600_000_000), Scalar::from_raw(800_000_000));
    movement(Scalar::from_raw(16_666_666), &vec![MovementAction::Move(along)], &mut bodies);
    assert_eq!(
        bodies[0].linear_velocity,
        Vector3::new(
            Scalar::from_raw(11_999_999_520),
            Scalar::from_raw(5),
            Scalar::from_raw(-15_999_999_360)
        )
    );
    assert_eq!(speed(bodies[0].linear_velocity), limit * limit);
}
