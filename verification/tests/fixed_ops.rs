//! Exact behavior of the Q32.32 scalar type.

use cubemap_sh::fixed::Fixed;

fn fx(v: f64) -> Fixed {
    Fixed::from_parts(v < 0.0, (v.abs() * 4294967296.0) as u64)
}

fn to_f64(x: Fixed) -> f64 {
    let m = x.magnitude() as f64 / 4294967296.0;
    if x.is_negative() {
        -m
    } else {
        m
    }
}

#[test]
fn add_is_exact() {
    let a = Fixed::from_ratio(1, 2);
    let b = Fixed::from_ratio(1, 4);
    assert_eq!(a.add(b), Fixed::from_ratio(3, 4));
}

#[test]
fn add_of_opposite_signs_cancels_exactly() {
    let a = fx(2.5);
    let b = fx(-2.5);
    assert_eq!(a.add(b), Fixed::zero());
    assert!(!a.add(b).is_negative());
}

#[test]
fn add_saturates_at_the_largest_magnitude() {
    let big = Fixed::from_parts(false, u64::MAX);
    let r = big.add(Fixed::one());
    assert_eq!(r.magnitude(), u64::MAX);
}

#[test]
fn sub_is_exact() {
    let a = Fixed::from_ratio(3, 4);
    let b = Fixed::one();
    let r = a.sub(b);
    assert!(r.is_negative());
    assert_eq!(r.abs(), Fixed::from_ratio(1, 4));
}

#[test]
fn mul_is_truncated_toward_zero() {
    assert_eq!(fx(1.5).mul(fx(2.0)), fx(3.0));
    // 1/3 * 3 falls one raw unit short of 1 after truncation.
    let third = Fixed::from_ratio(1, 3);
    let r = third.mul(fx(3.0));
    assert_eq!(r.magnitude(), 4294967295);
    // Symmetry under negation: truncation never rounds away from zero.
    let nr = third.neg().mul(fx(3.0));
    assert_eq!(nr.magnitude(), 4294967295);
    assert!(nr.is_negative());
}

#[test]
fn div_by_one_is_identity() {
    let v = fx(123.456);
    assert_eq!(v.div(Fixed::one()), v);
    assert_eq!(v.neg().div(Fixed::one()), v.neg());
}

#[test]
fn div_by_zero_is_zero() {
    assert_eq!(fx(7.0).div(Fixed::zero()), Fixed::zero());
}

#[test]
fn div_computes_exact_ratios() {
    assert_eq!(fx(1.0).div(fx(2.0)), Fixed::from_ratio(1, 2));
    assert_eq!(fx(-3.0).div(fx(2.0)), fx(-1.5));
}

#[test]
fn sqrt_of_a_perfect_square_is_exact() {
    assert_eq!(fx(4.0).sqrt(), fx(2.0));
    assert_eq!(fx(0.25).sqrt(), fx(0.5));
    assert_eq!(Fixed::zero().sqrt(), Fixed::zero());
}

#[test]
fn sqrt_of_negative_is_zero() {
    assert_eq!(fx(-9.0).sqrt(), Fixed::zero());
}

#[test]
fn sqrt_of_two_matches_the_real_value() {
    let r = to_f64(fx(2.0).sqrt());
    assert!((r - std::f64::consts::SQRT_2).abs() < 1e-9);
}

#[test]
fn comparisons_follow_the_signed_order() {
    assert!(fx(-1.0).lt(fx(0.5)));
    assert!(fx(-2.0).lt(fx(-1.0)));
    assert!(fx(1.0).le(fx(1.0)));
    assert!(!fx(1.5).le(fx(1.0)));
}

#[test]
fn from_ratio_truncates() {
    // 2^32 / 10^6 = 4294.967..., truncated to 4294 raw units.
    assert_eq!(Fixed::from_ratio(1, 1000000).magnitude(), 4294);
}

#[test]
fn from_parts_normalizes_negative_zero() {
    let z = Fixed::from_parts(true, 0);
    assert_eq!(z, Fixed::zero());
    assert!(!z.is_negative());
}

#[test]
fn from_usize_is_exact_for_small_counts() {
    assert_eq!(Fixed::from_usize(3).magnitude(), 3 * 4294967296);
    assert!(!Fixed::from_usize(0).is_negative());
}
