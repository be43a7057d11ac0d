use skipping_stone::fixed::{isqrt_wide, mul_div_exact, mul_div_wide, saturate_wide, Fixed, RAW_MAX, SCALE};

fn fx(x: f64) -> Fixed {
    Fixed::from_raw((x * 1e9).round() as i64)
}

#[test]
fn product_rounds_toward_zero() {
    let a = Fixed::from_raw(1_500_000_000);
    let b = Fixed::from_raw(-333_333_333);
    assert_eq!(a.mul(b).raw, -499_999_999);
    assert_eq!(b.mul(a).raw, -499_999_999);
    assert_eq!(a.mul(b.neg()).raw, 499_999_999);
}

#[test]
fn scale_is_a_billion() {
    assert_eq!(SCALE, 1_000_000_000);
    assert_eq!(Fixed::one().raw, SCALE);
    assert_eq!(Fixed::zero().raw, 0);
    assert_eq!(Fixed::from_int(7).raw, 7_000_000_000);
    assert_eq!(Fixed::from_int(-3).raw, -3_000_000_000);
}

#[test]
fn whole_numbers_saturate() {
    assert_eq!(Fixed::from_int(i64::MAX).raw, RAW_MAX);
    assert_eq!(Fixed::from_int(i64::MIN).raw, -RAW_MAX);
    assert_eq!(Fixed::from_int(10_000_000_000).raw, RAW_MAX);
}

#[test]
fn sums_and_differences_saturate_symmetrically() {
    let big = Fixed::from_raw(RAW_MAX);
    let small = Fixed::from_raw(i64::MIN);
    assert_eq!(big.add(big).raw, RAW_MAX);
    assert_eq!(small.add(small).raw, -RAW_MAX);
    assert_eq!(big.sub(small).raw, RAW_MAX);
    assert_eq!(small.sub(big).raw, -RAW_MAX);
    assert_eq!(fx(1.25).add(fx(2.5)).raw, 3_750_000_000);
    assert_eq!(fx(1.25).sub(fx(2.5)).raw, -1_250_000_000);
}

#[test]
fn negation_of_the_smallest_raw_value_saturates() {
    assert_eq!(Fixed::from_raw(i64::MIN).neg().raw, RAW_MAX);
    assert_eq!(Fixed::from_raw(i64::MIN).abs().raw, RAW_MAX);
    assert_eq!(fx(-2.0).neg().raw, 2_000_000_000);
    assert_eq!(fx(-2.0).abs().raw, 2_000_000_000);
    assert_eq!(fx(2.0).abs().raw, 2_000_000_000);
}

#[test]
fn product_saturates() {
    let big = Fixed::from_int(4_000_000_000);
    assert_eq!(big.mul(big).raw, RAW_MAX);
    assert_eq!(big.mul(big.neg()).raw, -RAW_MAX);
}

#[test]
fn quotient_rounds_toward_zero() {
    assert_eq!(fx(1.0).div(fx(3.0)).raw, 333_333_333);
    assert_eq!(fx(-1.0).div(fx(3.0)).raw, -333_333_333);
    assert_eq!(fx(1.0).div(fx(-3.0)).raw, -333_333_333);
    assert_eq!(fx(-1.0).div(fx(-3.0)).raw, 333_333_333);
    assert_eq!(fx(2.0).div(fx(0.5)).raw, 4_000_000_000);
}

#[test]
fn quotient_by_zero_is_zero() {
    assert_eq!(fx(5.0).div(Fixed::zero()).raw, 0);
    assert_eq!(fx(-5.0).div(Fixed::zero()).raw, 0);
    assert_eq!(fx(5.0).div_int(0).raw, 0);
    assert_eq!(fx(5.0).div_count(0).raw, 0);
    assert_eq!(fx(5.0).mul_div(fx(2.0), Fixed::zero()).raw, 0);
}

#[test]
fn quotient_saturates() {
    assert_eq!(fx(1000.0).div(Fixed::from_raw(1)).raw, RAW_MAX);
    assert_eq!(fx(-1000.0).div(Fixed::from_raw(1)).raw, -RAW_MAX);
}

#[test]
fn multiply_then_divide_rounds_once() {
    // 1/3 * 3 loses a unit when rounded twice, none when rounded once.
    let third = fx(1.0).div(fx(3.0));
    assert_eq!(third.mul(fx(3.0)).raw, 999_999_999);
    assert_eq!(fx(1.0).mul_div(fx(3.0), fx(3.0)).raw, 1_000_000_000);
    assert_eq!(fx(7.0).mul_div(fx(-3.0), fx(2.0)).raw, -10_500_000_000);
}

#[test]
fn whole_factors_and_divisors() {
    assert_eq!(fx(1.5).mul_int(3).raw, 4_500_000_000);
    assert_eq!(fx(1.5).mul_int(-3).raw, -4_500_000_000);
    assert_eq!(fx(1.0).div_int(3).raw, 333_333_333);
    assert_eq!(fx(-1.0).div_int(3).raw, -333_333_333);
    assert_eq!(fx(1.0).div_count(40000).raw, 25_000);
    assert_eq!(Fixed::from_raw(RAW_MAX).mul_int(2).raw, RAW_MAX);
}

#[test]
fn square_root_rounds_down() {
    assert_eq!(fx(4.0).sqrt().raw, 2_000_000_000);
    assert_eq!(fx(2.0).sqrt().raw, 1_414_213_562);
    assert_eq!(fx(0.25).sqrt().raw, 500_000_000);
    assert_eq!(Fixed::from_raw(1).sqrt().raw, 31_622);
    assert_eq!(Fixed::zero().sqrt().raw, 0);
}

#[test]
fn square_root_of_a_negative_number_is_zero() {
    assert_eq!(fx(-4.0).sqrt().raw, 0);
    assert_eq!(Fixed::from_raw(i64::MIN).sqrt().raw, 0);
}

#[test]
fn square_root_of_the_largest_value() {
    // sqrt(9223372036.854775807) = 96038.388349944...
    assert_eq!(Fixed::from_raw(RAW_MAX).sqrt().raw, 96_038_388_349_944);
}

#[test]
fn smaller_larger_and_limits() {
    assert_eq!(fx(1.0).min(fx(2.0)).raw, 1_000_000_000);
    assert_eq!(fx(1.0).max(fx(2.0)).raw, 2_000_000_000);
    assert_eq!(fx(5.0).clamp(fx(-1.0), fx(1.0)).raw, 1_000_000_000);
    assert_eq!(fx(-5.0).clamp(fx(-1.0), fx(1.0)).raw, -1_000_000_000);
    assert_eq!(fx(0.5).clamp(fx(-1.0), fx(1.0)).raw, 500_000_000);
}

#[test]
fn wide_helpers() {
    assert_eq!(saturate_wide(1i128 << 100), RAW_MAX);
    assert_eq!(saturate_wide(-(1i128 << 100)), -RAW_MAX);
    assert_eq!(saturate_wide(-42), -42);
    assert_eq!(mul_div_wide(7, -3, 2), -10);
    assert_eq!(mul_div_wide(-7, -3, -2), -10);
    assert_eq!(mul_div_wide(-7, -3, 2), 10);
    assert_eq!(mul_div_wide(7, 3, 0), 0);
    assert_eq!(mul_div_exact(3, 10, 4), 7);
    assert_eq!(mul_div_exact(-3, 10, 4), -7);
    assert_eq!(mul_div_exact(4, -0xffff_ffff_ffff_ffff, 4), -0xffff_ffff_ffff_ffff);
    assert_eq!(isqrt_wide(17), 4);
    assert_eq!(isqrt_wide(16), 4);
    assert_eq!(isqrt_wide(0), 0);
    assert_eq!(isqrt_wide(u128::MAX), u64::MAX);
}

#[test]
fn equality_is_by_raw_value() {
    assert_eq!(fx(1.5), Fixed::from_raw(1_500_000_000));
    assert_ne!(fx(1.5), fx(1.500000001));
}

#[test]
fn operators_follow_the_named_operations() {
    let a = fx(1.5);
    let b = fx(-0.25);
    assert_eq!(a + b, a.add(b));
    assert_eq!(a - b, a.sub(b));
    assert_eq!(a * b, a.mul(b));
    assert_eq!(a / b, a.div(b));
    assert_eq!(-a, a.neg());
    assert_eq!(a + b, fx(1.25));
    assert_eq!(a - b, fx(1.75));
    assert_eq!(a * b, fx(-0.375));
    assert_eq!(a / b, fx(-6.0));
    assert_eq!(-b, fx(0.25));
    assert_eq!(a / Fixed::zero(), Fixed::zero());
}
