use sonicsplit::fixed::{fx_mul, sat_add, sat_sub, tanh_fx};
use sonicsplit::{Density, SCALE};

#[test]
fn fixed_point_product_is_exact_for_one_and_zero() {
    assert_eq!(fx_mul(SCALE, 123_456), 123_456);
    assert_eq!(fx_mul(-987_654, SCALE), -987_654);
    assert_eq!(fx_mul(0, i64::MAX), 0);
    assert_eq!(fx_mul(i64::MIN, 0), 0);
}

#[test]
fn fixed_point_product_truncates_toward_zero() {
    // -0.000001 * 0.000001 rounds to zero, not to -0.000001.
    assert_eq!(fx_mul(-1, 1), 0);
    assert_eq!(fx_mul(1, -1), 0);
    assert_eq!(fx_mul(1_500_000, 333_333), 499_999);
    assert_eq!(fx_mul(-1_500_000, 333_333), -499_999);
}

#[test]
fn fixed_point_operations_saturate() {
    assert_eq!(fx_mul(i64::MAX, 2_000_000), i64::MAX);
    assert_eq!(fx_mul(i64::MAX, -2_000_000), i64::MIN);
    assert_eq!(sat_add(i64::MAX, 1), i64::MAX);
    assert_eq!(sat_add(i64::MIN, -1), i64::MIN);
    assert_eq!(sat_sub(i64::MIN, 1), i64::MIN);
    assert_eq!(sat_sub(0, i64::MIN), i64::MAX);
}

#[test]
fn tanh_saturates_at_three() {
    assert_eq!(tanh_fx(3 * SCALE), SCALE);
    assert_eq!(tanh_fx(10 * SCALE), SCALE);
    assert_eq!(tanh_fx(-3 * SCALE), -SCALE);
    assert_eq!(tanh_fx(-10 * SCALE), -SCALE);
    assert_eq!(tanh_fx(0), 0);
}

#[test]
fn tanh_matches_rational_approximant_inside_the_knee() {
    // tanh(1) ~ 1 * (27 + 1) / (27 + 9) = 28/36 = 0.777777...
    assert_eq!(tanh_fx(SCALE), 777_777);
    assert_eq!(tanh_fx(-SCALE), -777_777);
    // tanh(0.5) ~ 0.5 * (27 + 0.25) / (27 + 2.25) = 13.625/29.25 = 0.465811...
    assert_eq!(tanh_fx(500_000), 465_811);
}

#[test]
fn subgaussian_score_is_negated_cube() {
    let d = Density::Subgaussian;
    assert_eq!(d.apply(SCALE), -SCALE);
    assert_eq!(d.apply(-SCALE), SCALE);
    assert_eq!(d.apply(500_000), -125_000);
    assert_eq!(d.apply(0), 0);
}

#[test]
fn supergaussian_score_is_minus_two_tanh() {
    let d = Density::Supergaussian;
    assert_eq!(d.apply(0), 0);
    assert_eq!(d.apply(SCALE), -1_555_554);
    assert_eq!(d.apply(-SCALE), 1_555_554);
    assert_eq!(d.apply(5 * SCALE), -2 * SCALE);
}

#[test]
fn subgaussian_tanh_score_is_tanh_minus_identity() {
    let d = Density::SubgaussianHyperbolicTangent;
    assert_eq!(d.apply(0), 0);
    assert_eq!(d.apply(SCALE), 777_777 - SCALE);
    assert_eq!(d.apply(-SCALE), SCALE - 777_777);
}
