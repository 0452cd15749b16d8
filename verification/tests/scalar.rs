use locomotion::scalar::{Scalar, SCALE};

#[test]
fn scale_is_one_billion() {
    assert_eq!(SCALE, 1_000_000_000);
    assert_eq!(Scalar::one().raw(), 1_000_000_000);
    assert_eq!(Scalar::zero().raw(), 0);
    assert_eq!(Scalar::from_int(7).raw(), 7_000_000_000);
    assert_eq!(Scalar::from_int(-3).raw(), -3_000_000_000);
    assert_eq!(Scalar::from_int(i32::MAX).raw(), 2_147_483_647_000_000_000);
    assert_eq!(Scalar::from_int(i32::MIN).raw(), -2_147_483_648_000_000_000);
}

#[test]
fn sum_and_difference_are_exact_in_range() {
    let a = Scalar::from_raw(1_250_000);
    let b = Scalar::from_raw(-750_001);
    assert_eq!(a.saturating_add(b).raw(), 499_999);
    assert_eq!(a.saturating_sub(b).raw(), 2_000_001);
    assert_eq!(b.saturating_sub(a).raw(), -2_000_001);
}

#[test]
fn sum_saturates_at_both_ends() {
    let top = Scalar::from_raw(i64::MAX);
    let bottom = Scalar::from_raw(i64::MIN);
    let one = Scalar::from_raw(1);
    assert_eq!(top.saturating_add(one).raw(), i64::MAX);
    assert_eq!(top.saturating_add(top).raw(), i64::MAX);
    assert_eq!(bottom.saturating_sub(one).raw(), i64::MIN);
    assert_eq!(bottom.saturating_add(bottom).raw(), i64::MIN);
    assert_eq!(top.saturating_sub(bottom).raw(), i64::MAX);
    assert_eq!(bottom.saturating_sub(top).raw(), i64::MIN);
    assert_eq!(top.saturating_add(bottom).raw(), -1);
}

#[test]
fn product_rounds_toward_zero() {
    let a = Scalar::from_raw(1);
    let b = Scalar::from_raw(999_999_999);
    assert_eq!(a.saturating_mul(b).raw(), 0);
    assert_eq!(Scalar::from_raw(-1).saturating_mul(b).raw(), 0);
    assert_eq!(Scalar::from_raw(3).saturating_mul(Scalar::from_raw(500_000_000)).raw(), 1);
    assert_eq!(Scalar::from_raw(-3).saturating_mul(Scalar::from_raw(500_000_000)).raw(), -1);
    assert_eq!(Scalar::from_raw(-3).saturating_mul(Scalar::from_raw(-500_000_000)).raw(), 1);
    assert_eq!(
        Scalar::from_int(3).saturating_mul(Scalar::from_raw(SCALE / 2)).raw(),
        1_500_000_000
    );
    // A sixtieth of a second times 120: within a tenth of a millionth of two.
    assert_eq!(
        Scalar::from_int(120).saturating_mul(Scalar::from_raw(16_666_666)).raw(),
        1_999_999_920
    );
}

#[test]
fn product_with_one_is_the_other_factor() {
    for raw in [0, 1, -1, 123_456_789, -987_654_321, i64::MAX, i64::MIN] {
        let a = Scalar::from_raw(raw);
        assert_eq!(a.saturating_mul(Scalar::one()).raw(), raw);
        assert_eq!(Scalar::one().saturating_mul(a).raw(), raw);
    }
}

#[test]
fn product_saturates_at_both_ends() {
    let top = Scalar::from_raw(i64::MAX);
    let bottom = Scalar::from_raw(i64::MIN);
    let two = Scalar::from_int(2);
    assert_eq!(top.saturating_mul(two).raw(), i64::MAX);
    assert_eq!(bottom.saturating_mul(two).raw(), i64::MIN);
    assert_eq!(top.saturating_mul(top).raw(), i64::MAX);
    assert_eq!(bottom.saturating_mul(bottom).raw(), i64::MAX);
    assert_eq!(top.saturating_mul(bottom).raw(), i64::MIN);
    assert_eq!(top.saturating_mul(Scalar::from_raw(SCALE / 2)).raw(), i64::MAX / 2);
}

#[test]
fn negation_and_magnitude() {
    assert_eq!(Scalar::from_raw(5).saturating_neg().raw(), -5);
    assert_eq!(Scalar::from_raw(-5).saturating_neg().raw(), 5);
    assert_eq!(Scalar::from_raw(0).saturating_neg().raw(), 0);
    assert_eq!(Scalar::from_raw(i64::MAX).saturating_neg().raw(), -i64::MAX);
    assert_eq!(Scalar::from_raw(i64::MIN).saturating_neg().raw(), i64::MAX);
    assert_eq!(Scalar::from_raw(-5).saturating_abs().raw(), 5);
    assert_eq!(Scalar::from_raw(5).saturating_abs().raw(), 5);
    assert_eq!(Scalar::from_raw(i64::MIN).saturating_abs().raw(), i64::MAX);
}

#[test]
fn clamp_holds_a_value_between_its_bounds() {
    let lo = Scalar::from_raw(-10);
    let hi = Scalar::from_raw(20);
    assert_eq!(Scalar::from_raw(-11).clamp(lo, hi).raw(), -10);
    assert_eq!(Scalar::from_raw(-10).clamp(lo, hi).raw(), -10);
    assert_eq!(Scalar::from_raw(0).clamp(lo, hi).raw(), 0);
    assert_eq!(Scalar::from_raw(20).clamp(lo, hi).raw(), 20);
    assert_eq!(Scalar::from_raw(21).clamp(lo, hi).raw(), 20);
    assert_eq!(Scalar::from_raw(7).clamp(hi, hi).raw(), 20);
}

#[test]
fn zero_test_is_exact() {
    assert!(Scalar::from_raw(0).is_zero());
    assert!(!Scalar::from_raw(1).is_zero());
    assert!(!Scalar::from_raw(-1).is_zero());
}

#[test]
fn wide_results_come_back_saturated() {
    assert_eq!(Scalar::from_wide(0).raw(), 0);
    assert_eq!(Scalar::from_wide(i64::MAX as i128).raw(), i64::MAX);
    assert_eq!(Scalar::from_wide(i64::MAX as i128 + 1).raw(), i64::MAX);
    assert_eq!(Scalar::from_wide(i64::MIN as i128 - 1).raw(), i64::MIN);
    assert_eq!(Scalar::from_wide(i128::MAX).raw(), i64::MAX);
    assert_eq!(Scalar::from_wide(i128::MIN).raw(), i64::MIN);
}
