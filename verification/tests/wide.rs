use secretswap_pair::error::{Operands, PairError, Quantity};
use secretswap_pair::wide::{
    checked_add, checked_div, checked_mul, checked_sub, integer_sqrt, multiply_ratio, Wide,
};

fn wide(x: u128) -> Option<Wide> {
    Some(Wide::from_u128(x))
}

fn max_wide() -> Wide {
    Wide { w0: u64::MAX, w1: u64::MAX, w2: u64::MAX, w3: u64::MAX }
}

#[test]
fn from_u128_splits_into_two_low_limbs() {
    let w = Wide::from_u128(0x0123_4567_89ab_cdef_0011_2233_4455_6677);
    assert_eq!(
        w,
        Wide { w0: 0x0011_2233_4455_6677, w1: 0x0123_4567_89ab_cdef, w2: 0, w3: 0 }
    );
    assert_eq!(Wide::from_u128(0), Wide { w0: 0, w1: 0, w2: 0, w3: 0 });
    assert_eq!(Wide::from_u128(u128::MAX), Wide { w0: u64::MAX, w1: u64::MAX, w2: 0, w3: 0 });
}

#[test]
fn to_u128_round_trips_and_rejects_high_limbs() {
    for x in [0u128, 1, 1 << 64, u128::MAX, 12_345_678_901_234_567_890_123] {
        assert_eq!(Wide::from_u128(x).to_u128(), Some(x));
    }
    assert_eq!(Wide { w0: 0, w1: 0, w2: 1, w3: 0 }.to_u128(), None);
    assert_eq!(Wide { w0: 7, w1: 7, w2: 0, w3: 1 }.to_u128(), None);
}

#[test]
fn is_zero_only_for_zero() {
    assert!(Wide::from_u128(0).is_zero());
    assert!(!Wide::from_u128(1).is_zero());
    assert!(!Wide { w0: 0, w1: 0, w2: 0, w3: 1 }.is_zero());
}

#[test]
fn checked_add_carries_across_limbs() {
    assert_eq!(
        checked_add(wide(u128::MAX), wide(1)),
        Some(Wide { w0: 0, w1: 0, w2: 1, w3: 0 })
    );
    assert_eq!(checked_add(wide(2), wide(3)), wide(5));
}

#[test]
fn checked_add_overflow_is_absent() {
    assert_eq!(checked_add(Some(max_wide()), wide(1)), None);
    assert_eq!(checked_add(Some(max_wide()), wide(0)), Some(max_wide()));
}

#[test]
fn checked_sub_borrows_and_underflows() {
    assert_eq!(
        checked_sub(Some(Wide { w0: 0, w1: 0, w2: 1, w3: 0 }), wide(1)),
        wide(u128::MAX)
    );
    assert_eq!(checked_sub(wide(5), wide(5)), wide(0));
    assert_eq!(checked_sub(wide(5), wide(6)), None);
}

#[test]
fn checked_mul_reaches_all_four_limbs() {
    // (2^128 - 1)^2 = 2^256 - 2^129 + 1
    assert_eq!(
        checked_mul(wide(u128::MAX), wide(u128::MAX)),
        Some(Wide { w0: 1, w1: 0, w2: u64::MAX - 1, w3: u64::MAX })
    );
    assert_eq!(checked_mul(wide(6), wide(7)), wide(42));
}

#[test]
fn checked_mul_overflow_is_absent() {
    let two_pow_128 = Some(Wide { w0: 0, w1: 0, w2: 1, w3: 0 });
    assert_eq!(checked_mul(two_pow_128, two_pow_128), None);
    assert_eq!(checked_mul(Some(max_wide()), wide(2)), None);
}

#[test]
fn checked_div_rounds_down() {
    assert_eq!(checked_div(wide(100), wide(15)), wide(6));
    assert_eq!(checked_div(wide(14), wide(15)), wide(0));
    assert_eq!(
        checked_div(checked_mul(wide(u128::MAX), wide(u128::MAX)), wide(u128::MAX)),
        wide(u128::MAX)
    );
}

#[test]
fn checked_div_by_zero_is_absent() {
    assert_eq!(checked_div(wide(100), wide(0)), None);
    assert_eq!(checked_div(wide(0), wide(0)), None);
}

#[test]
fn absent_operands_stay_absent() {
    assert_eq!(checked_add(None, wide(1)), None);
    assert_eq!(checked_add(wide(1), None), None);
    assert_eq!(checked_sub(None, wide(1)), None);
    assert_eq!(checked_mul(wide(1), None), None);
    assert_eq!(checked_div(None, wide(1)), None);
    assert_eq!(integer_sqrt(None), None);
}

#[test]
fn integer_sqrt_is_the_floor() {
    assert_eq!(integer_sqrt(wide(0)), wide(0));
    assert_eq!(integer_sqrt(wide(1)), wide(1));
    assert_eq!(integer_sqrt(wide(10_100)), wide(100));
    assert_eq!(integer_sqrt(wide(40_000)), wide(200));
    assert_eq!(integer_sqrt(wide(40_400)), wide(200));
    assert_eq!(integer_sqrt(wide(40_401)), wide(201));
    assert_eq!(
        integer_sqrt(checked_mul(wide(u128::MAX), wide(u128::MAX))),
        wide(u128::MAX)
    );
    assert_eq!(integer_sqrt(Some(max_wide())), wide(u128::MAX));
}

#[test]
fn multiply_ratio_multiplies_before_dividing() {
    assert_eq!(multiply_ratio(7, 3, 2, Quantity::Share), Ok(10));
    assert_eq!(multiply_ratio(u128::MAX, u128::MAX, u128::MAX, Quantity::Share), Ok(u128::MAX));
    assert_eq!(
        multiply_ratio(u128::MAX, 1_000_000, 2_000_000, Quantity::Share),
        Ok(u128::MAX / 2)
    );
    assert_eq!(multiply_ratio(0, 5, 1, Quantity::Share), Ok(0));
}

#[test]
fn multiply_ratio_names_its_failures() {
    assert_eq!(
        multiply_ratio(7, 3, 0, Quantity::RefundAmount),
        Err(PairError::DegenerateState(Quantity::RefundAmount, Operands::Three(7, 3, 0)))
    );
    assert_eq!(
        multiply_ratio(u128::MAX, 2, 1, Quantity::ReportedAmount),
        Err(PairError::Overflow(Quantity::ReportedAmount, Operands::Three(u128::MAX, 2, 1)))
    );
    // a zero denominator is reported before the size of the result
    assert_eq!(
        multiply_ratio(u128::MAX, u128::MAX, 0, Quantity::Rate),
        Err(PairError::DegenerateState(
            Quantity::Rate,
            Operands::Three(u128::MAX, u128::MAX, 0)
        ))
    );
}

#[test]
fn integer_sqrt_brackets_its_argument() {
    for x in [2u128, 3, 4, 8, 9, 15, 16, 17, 99, 10_000, 1 << 126, u128::MAX] {
        let root = integer_sqrt(wide(x)).unwrap().to_u128().unwrap();
        assert!(root * root <= x);
        assert!((root + 1).checked_mul(root + 1).map_or(true, |next| x < next));
    }
}

