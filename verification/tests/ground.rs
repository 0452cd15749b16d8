use locomotion::ground::{is_grounded, update_grounded, GroundProbe, Grounded, ShapeHit};
use locomotion::profile::MaxSlopeAngle;
use locomotion::scalar::Scalar;

/// One degree in raw radians, rounded toward zero.
const DEGREE: i64 = 17_453_292;

fn hit(angle: i64) -> ShapeHit {
    ShapeHit { slope_angle: Scalar::from_raw(angle) }
}

fn limit(angle: i64) -> Option<MaxSlopeAngle> {
    Some(MaxSlopeAngle(Scalar::from_raw(angle)))
}

#[test]
fn level_limit_takes_only_a_normal_that_is_straight_up() {
    assert!(is_grounded(&vec![hit(0)], limit(0)));
    assert!(!is_grounded(&vec![hit(1)], limit(0)));
    assert!(!is_grounded(&vec![hit(-1)], limit(0)));
    assert!(!is_grounded(&vec![hit(DEGREE)], limit(0)));
    assert!(is_grounded(&vec![hit(DEGREE), hit(0), hit(5)], limit(0)));
}

#[test]
fn a_slope_of_91_degrees_never_grounds_a_body_limited_to_90() {
    assert!(!is_grounded(&vec![hit(91 * DEGREE)], limit(90 * DEGREE)));
    assert!(!is_grounded(&vec![hit(91 * DEGREE), hit(135 * DEGREE)], limit(90 * DEGREE)));
    assert!(is_grounded(&vec![hit(90 * DEGREE)], limit(90 * DEGREE)));
    assert!(is_grounded(&vec![hit(89 * DEGREE)], limit(90 * DEGREE)));
}

#[test]
fn any_hit_within_the_limit_grounds() {
    let hits = vec![hit(80 * DEGREE), hit(50 * DEGREE), hit(29 * DEGREE)];
    assert!(is_grounded(&hits, limit(30 * DEGREE)));
    assert!(!is_grounded(&hits, limit(28 * DEGREE)));
}

#[test]
fn the_angle_counts_by_its_magnitude() {
    assert!(is_grounded(&vec![hit(-10 * DEGREE)], limit(10 * DEGREE)));
    assert!(!is_grounded(&vec![hit(-11 * DEGREE)], limit(10 * DEGREE)));
    assert!(!is_grounded(&vec![hit(i64::MIN)], limit(i64::MAX - 1)));
    assert!(is_grounded(&vec![hit(i64::MIN)], limit(i64::MAX)));
}

#[test]
fn without_a_limit_any_hit_grounds() {
    assert!(is_grounded(&vec![hit(179 * DEGREE)], None));
    assert!(is_grounded(&vec![hit(0)], None));
}

#[test]
fn without_a_hit_nothing_grounds() {
    assert!(!is_grounded(&vec![], None));
    assert!(!is_grounded(&vec![], limit(90 * DEGREE)));
}

#[test]
fn a_negative_limit_grounds_nothing() {
    assert!(!is_grounded(&vec![hit(0)], limit(-1)));
}

#[test]
fn raising_the_limit_keeps_a_body_grounded() {
    let hits = vec![hit(40 * DEGREE), hit(20 * DEGREE)];
    let mut grounded_before = false;
    for degrees in 0..90 {
        let grounded = is_grounded(&hits, limit(degrees * DEGREE));
        assert!(grounded || !grounded_before);
        assert_eq!(grounded, degrees >= 20);
        grounded_before = grounded;
    }
}

#[test]
fn every_body_is_tagged_on_its_own() {
    let probes = vec![
        GroundProbe { hits: vec![hit(5 * DEGREE)], max_slope_angle: limit(30 * DEGREE) },
        GroundProbe { hits: vec![hit(35 * DEGREE)], max_slope_angle: limit(30 * DEGREE) },
        GroundProbe { hits: vec![], max_slope_angle: None },
        GroundProbe { hits: vec![hit(170 * DEGREE)], max_slope_angle: None },
    ];
    assert_eq!(update_grounded(&probes), vec![Some(Grounded), None, None, Some(Grounded)]);
    assert_eq!(update_grounded(&vec![]), vec![]);
}

#[test]
fn the_tag_follows_the_hits_of_the_tick() {
    let mut probe = GroundProbe { hits: vec![hit(0)], max_slope_angle: limit(30 * DEGREE) };
    assert_eq!(update_grounded(&vec![probe]), vec![Some(Grounded)]);
    probe = GroundProbe { hits: vec![], max_slope_angle: limit(30 * DEGREE) };
    assert_eq!(update_grounded(&vec![probe]), vec![None]);
    probe = GroundProbe { hits: vec![hit(0)], max_slope_angle: limit(30 * DEGREE) };
    assert_eq!(update_grounded(&vec![probe]), vec![Some(Grounded)]);
}
