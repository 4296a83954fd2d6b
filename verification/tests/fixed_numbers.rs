use softrender::arith::{div_toward_zero, isqrt_u128};
use softrender::fixed::{saturate_wide, Fixed, MAX_RAW, ONE_RAW};

#[test]
fn one_has_sixteen_fractional_bits() {
    assert_eq!(ONE_RAW, 65536);
    assert_eq!(Fixed::one().raw(), 65536);
    assert_eq!(Fixed::zero().raw(), 0);
    assert_eq!(Fixed::from_int(3).raw(), 3 * 65536);
    assert_eq!(Fixed::from_int(-7).raw(), -7 * 65536);
}

#[test]
fn bounds_are_plus_and_minus_two_to_the_thirty() {
    assert_eq!(MAX_RAW, 1 << 30);
    assert_eq!(Fixed::max_value().raw(), 1 << 30);
    assert_eq!(Fixed::min_value().raw(), -(1 << 30));
}

#[test]
fn from_raw_saturates() {
    assert_eq!(Fixed::from_raw(12345).raw(), 12345);
    assert_eq!(Fixed::from_raw(i64::MAX), Fixed::max_value());
    assert_eq!(Fixed::from_raw(i64::MIN), Fixed::min_value());
    assert_eq!(Fixed::from_raw(MAX_RAW + 1), Fixed::max_value());
    assert_eq!(saturate_wide(-(1i128 << 100)), -MAX_RAW);
}

#[test]
fn from_int_saturates() {
    assert_eq!(Fixed::from_int(16384), Fixed::max_value());
    assert_eq!(Fixed::from_int(16385), Fixed::max_value());
    assert_eq!(Fixed::from_int(i32::MIN), Fixed::min_value());
}

#[test]
fn from_ratio_rounds_toward_zero() {
    assert_eq!(Fixed::from_ratio(1, 2).raw(), 32768);
    assert_eq!(Fixed::from_ratio(1, 3).raw(), 21845);
    assert_eq!(Fixed::from_ratio(-1, 3).raw(), -21845);
    assert_eq!(Fixed::from_ratio(1, -3).raw(), -21845);
    assert_eq!(Fixed::from_ratio(-1, -3).raw(), 21845);
    assert_eq!(Fixed::from_ratio(1, 5).raw(), 13107);
    assert_eq!(Fixed::from_ratio(1, 1000).raw(), 65);
}

#[test]
fn division_by_zero_gives_the_bound_with_the_sign_of_the_numerator() {
    assert_eq!(Fixed::from_ratio(5, 0), Fixed::max_value());
    assert_eq!(Fixed::from_ratio(-5, 0), Fixed::min_value());
    assert_eq!(Fixed::from_ratio(0, 0), Fixed::zero());
    assert_eq!(Fixed::one().div(Fixed::zero()), Fixed::max_value());
    assert_eq!(Fixed::one().neg().div(Fixed::zero()), Fixed::min_value());
}

#[test]
fn to_int_rounds_toward_zero() {
    assert_eq!(Fixed::from_ratio(3, 2).to_int(), 1);
    assert_eq!(Fixed::from_ratio(-3, 2).to_int(), -1);
    assert_eq!(Fixed::from_ratio(-1, 2).to_int(), 0);
    assert_eq!(Fixed::from_int(-4).to_int(), -4);
    assert_eq!(Fixed::from_raw(65535).to_int(), 0);
    assert_eq!(Fixed::max_value().to_int(), 16384);
    assert_eq!(Fixed::min_value().to_int(), -16384);
}

#[test]
fn addition_and_subtraction_saturate() {
    let a = Fixed::from_int(10000);
    assert_eq!(a.add(a), Fixed::max_value());
    assert_eq!(a.neg().sub(a), Fixed::min_value());
    assert_eq!(Fixed::from_int(2).add(Fixed::from_int(3)), Fixed::from_int(5));
    assert_eq!(Fixed::from_int(2).sub(Fixed::from_int(3)), Fixed::from_int(-1));
    assert_eq!(Fixed::min_value().neg(), Fixed::max_value());
}

#[test]
fn multiplication_rounds_toward_zero_and_saturates() {
    let a = Fixed::from_ratio(3, 2);
    let b = Fixed::from_ratio(-5, 2);
    assert_eq!(a.mul(b).raw(), -245760);
    assert_eq!(Fixed::from_raw(3).mul(Fixed::from_raw(-1)).raw(), 0);
    assert_eq!(Fixed::from_raw(32769).mul(Fixed::from_raw(1)).raw(), 0);
    assert_eq!(Fixed::from_int(200).mul(Fixed::from_int(200)), Fixed::max_value());
    assert_eq!(Fixed::from_int(200).mul(Fixed::from_int(-200)), Fixed::min_value());
}

#[test]
fn division_rounds_toward_zero_and_saturates() {
    assert_eq!(Fixed::from_int(1).div(Fixed::from_int(3)).raw(), 21845);
    assert_eq!(Fixed::from_int(-1).div(Fixed::from_int(3)).raw(), -21845);
    assert_eq!(Fixed::from_int(6).div(Fixed::from_int(-3)), Fixed::from_int(-2));
    assert_eq!(Fixed::from_int(1000).div(Fixed::from_raw(1)), Fixed::max_value());
}

#[test]
fn mul_div_rounds_once() {
    let third = Fixed::from_ratio(1, 3);
    // (1/3 * 3) / 1 comes out one raw unit short, since 1/3 was rounded down
    assert_eq!(third.mul_div(Fixed::from_int(3), Fixed::one()).raw(), 65535);
    // dividing by the factor itself gives the number back exactly
    let d = Fixed::from_ratio(7, 3);
    assert_eq!(third.mul_div(d, d), third);
    assert_eq!(Fixed::from_int(5).mul_div(Fixed::from_int(4), Fixed::from_int(10)), Fixed::from_int(2));
    assert_eq!(Fixed::from_int(5).mul_div(Fixed::from_int(4), Fixed::zero()), Fixed::max_value());
    assert_eq!(Fixed::from_int(-5).mul_div(Fixed::from_int(4), Fixed::zero()), Fixed::min_value());
    assert_eq!(Fixed::zero().mul_div(Fixed::from_int(4), Fixed::zero()), Fixed::zero());
}

#[test]
fn from_product_rescales() {
    assert_eq!(Fixed::from_product(65536 * 65536), Fixed::one());
    assert_eq!(Fixed::from_product(-65537).raw(), -1);
    assert_eq!(Fixed::from_product(65535).raw(), 0);
}

#[test]
fn comparisons_follow_the_raw_values() {
    let a = Fixed::from_int(1);
    let b = Fixed::from_int(2);
    assert!(a.lt(b));
    assert!(!b.lt(a));
    assert!(!a.lt(a));
    assert!(a.le(a));
    assert!(a.le(b));
    assert!(!b.le(a));
    assert!(a.within(a, b));
    assert!(b.within(a, b));
    assert!(!Fixed::from_int(3).within(a, b));
    assert!(!Fixed::zero().within(a, b));
}

#[test]
fn division_helper_rounds_toward_zero_for_every_sign() {
    assert_eq!(div_toward_zero(7, 2), 3);
    assert_eq!(div_toward_zero(-7, 2), -3);
    assert_eq!(div_toward_zero(7, -2), -3);
    assert_eq!(div_toward_zero(-7, -2), 3);
    assert_eq!(div_toward_zero(0, -2), 0);
}

#[test]
fn integer_square_root_rounds_down() {
    assert_eq!(isqrt_u128(0), 0);
    assert_eq!(isqrt_u128(1), 1);
    assert_eq!(isqrt_u128(3), 1);
    assert_eq!(isqrt_u128(4), 2);
    assert_eq!(isqrt_u128(24), 4);
    assert_eq!(isqrt_u128(25), 5);
    assert_eq!(isqrt_u128(1 << 64), 1 << 32);
    assert_eq!(isqrt_u128((1 << 64) - 1), (1 << 32) - 1);
    assert_eq!(isqrt_u128(u128::MAX), u64::MAX);
}
