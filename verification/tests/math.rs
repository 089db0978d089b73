use nasset_token_rewards::math::{mul_div, mul_high, Decimal, DECIMAL_FRACTIONAL};

#[test]
fn mul_high_of_small_factors_is_zero() {
    assert_eq!(mul_high(0, 0), 0);
    assert_eq!(mul_high(7, 9), 0);
    assert_eq!(mul_high(u128::MAX, 1), 0);
}

#[test]
fn mul_high_takes_the_upper_half() {
    let two_64: u128 = 1 << 64;
    assert_eq!(mul_high(two_64, two_64), 1);
    assert_eq!(mul_high(u128::MAX, 2), 1);
    assert_eq!(mul_high(u128::MAX, u128::MAX), u128::MAX - 1);
    assert_eq!(mul_high(1 << 127, 1 << 127), 1 << 126);
}

#[test]
fn mul_div_rounds_down() {
    assert_eq!(mul_div(7, 3, 2), Some(10));
    assert_eq!(mul_div(1, 1, 3), Some(0));
    assert_eq!(mul_div(0, u128::MAX, 1), Some(0));
    assert_eq!(mul_div(5, 0, 9), Some(0));
}

#[test]
fn mul_div_works_on_a_wide_product() {
    let a: u128 = 1_000_000_000_000_000_000_000_000_000_000;
    let d: u128 = 10_000_000_000_000_000_000_000_000;
    assert_eq!(mul_div(a, a, d), Some(100_000_000_000_000_000_000_000_000_000_000_000));
    assert_eq!(mul_div(u128::MAX, u128::MAX, u128::MAX), Some(u128::MAX));
    assert_eq!(mul_div(u128::MAX, 3, 4), Some(255211775190703847597530955573826158591));
}

#[test]
fn mul_div_reports_a_quotient_beyond_128_bits() {
    assert_eq!(mul_div(u128::MAX, 2, 1), None);
    assert_eq!(mul_div(u128::MAX, u128::MAX, u128::MAX - 1), None);
    assert_eq!(mul_div(1 << 64, 1 << 64, 1), None);
    assert_eq!(mul_div(1 << 64, 1 << 64, 2), Some(1 << 127));
}

#[test]
fn decimal_constants() {
    assert_eq!(Decimal::zero().atomics(), 0);
    assert_eq!(Decimal::one().atomics(), 1_000_000_000_000_000_000);
    assert_eq!(DECIMAL_FRACTIONAL, 1_000_000_000_000_000_000);
    assert_eq!(Decimal::from_atomics(42), Decimal { atomics: 42 });
}

#[test]
fn decimal_from_ratio() {
    assert_eq!(Decimal::from_ratio(1, 1), Some(Decimal::one()));
    assert_eq!(Decimal::from_ratio(3, 2), Some(Decimal::from_atomics(1_500_000_000_000_000_000)));
    assert_eq!(Decimal::from_ratio(1, 8), Some(Decimal::from_atomics(125_000_000_000_000_000)));
    assert_eq!(Decimal::from_ratio(1, 3), Some(Decimal::from_atomics(333_333_333_333_333_333)));
    assert_eq!(Decimal::from_ratio(2, 3), Some(Decimal::from_atomics(666_666_666_666_666_666)));
    assert_eq!(Decimal::from_ratio(0, 5), Some(Decimal::zero()));
}

#[test]
fn decimal_from_ratio_beyond_its_range() {
    assert_eq!(Decimal::from_ratio(u128::MAX, 1), None);
    assert_eq!(Decimal::from_ratio(340_282_366_920_938_463_464, 1), None);
    assert_eq!(
        Decimal::from_ratio(340_282_366_920_938_463_463, 1),
        Some(Decimal::from_atomics(340_282_366_920_938_463_463_000_000_000_000_000_000))
    );
    assert_eq!(
        Decimal::from_ratio(u128::MAX, DECIMAL_FRACTIONAL),
        Some(Decimal::from_atomics(u128::MAX))
    );
}

#[test]
fn decimal_sum_and_difference() {
    let a = Decimal::from_atomics(5);
    let b = Decimal::from_atomics(7);
    assert_eq!(a.checked_add(b), Some(Decimal::from_atomics(12)));
    assert_eq!(b.checked_sub(a), Some(Decimal::from_atomics(2)));
    assert_eq!(a.checked_sub(a), Some(Decimal::zero()));
    assert_eq!(a.checked_sub(b), None);
    assert_eq!(Decimal::from_atomics(u128::MAX).checked_add(Decimal::from_atomics(1)), None);
    assert_eq!(
        Decimal::from_atomics(u128::MAX - 1).checked_add(Decimal::from_atomics(1)),
        Some(Decimal::from_atomics(u128::MAX))
    );
}

#[test]
fn decimal_times_amount() {
    let half = Decimal::from_atomics(500_000_000_000_000_000);
    assert_eq!(half.mul_uint(10), Some(5));
    assert_eq!(half.mul_uint(11), Some(5));
    assert_eq!(half.mul_uint(1), Some(0));
    assert_eq!(Decimal::one().mul_uint(u128::MAX), Some(u128::MAX));
    assert_eq!(Decimal::zero().mul_uint(u128::MAX), Some(0));
    assert_eq!(Decimal::from_atomics(2_500_000_000_000_000_000).mul_uint(100), Some(250));
    assert_eq!(Decimal::from_atomics(1_000_000_000_000_000_001).mul_uint(u128::MAX), None);
    assert_eq!(half.mul_uint(u128::MAX), Some(u128::MAX / 2));
}
