use postgres_money::{Error, Money};

#[test]
fn test_money_default() {
    let default_money = Money::default();
    let nil_money = Money::none();

    assert_eq!(default_money, nil_money);
}

#[test]
fn test_mul_success_i64() {
    assert_eq!(Money::from(7) * 3 as i64, Money::from(21))
}

#[test]
fn test_mul_success_reversed_i64() {
    assert_eq!(3 as i64 * Money::from(7), Money::from(21))
}

#[test]
fn mul_overflow_max_i64() {
    assert_eq!(
        Money::max().checked_mul((100 as i64) as i64),
        Err(Error::Overflow)
    );
}

#[test]
fn mul_overflow_min_i64() {
    assert_eq!(
        Money::min().checked_mul((100 as i64) as i64),
        Err(Error::Overflow)
    );
}

#[test]
fn test_mul_success_i32() {
    assert_eq!(Money::from(7) * 3 as i32, Money::from(21))
}

#[test]
fn test_mul_success_reversed_i32() {
    assert_eq!(3 as i32 * Money::from(7), Money::from(21))
}

#[test]
fn mul_overflow_max_i32() {
    assert_eq!(
        Money::max().checked_mul((100 as i32) as i64),
        Err(Error::Overflow)
    );
}

#[test]
fn mul_overflow_min_i32() {
    assert_eq!(
        Money::min().checked_mul((100 as i32) as i64),
        Err(Error::Overflow)
    );
}

#[test]
fn test_mul_success_i16() {
    assert_eq!(Money::from(7) * 3 as i16, Money::from(21))
}

#[test]
fn test_mul_success_reversed_i16() {
    assert_eq!(3 as i16 * Money::from(7), Money::from(21))
}

#[test]
fn mul_overflow_max_i16() {
    assert_eq!(
        Money::max().checked_mul((100 as i16) as i64),
        Err(Error::Overflow)
    );
}

#[test]
fn mul_overflow_min_i16() {
    assert_eq!(
        Money::min().checked_mul((100 as i16) as i64),
        Err(Error::Overflow)
    );
}

#[test]
fn test_mul_success_i8() {
    assert_eq!(Money::from(7) * 3 as i8, Money::from(21))
}

#[test]
fn test_mul_success_reversed_i8() {
    assert_eq!(3 as i8 * Money::from(7), Money::from(21))
}

#[test]
fn mul_overflow_max_i8() {
    assert_eq!(
        Money::max().checked_mul((100 as i8) as i64),
        Err(Error::Overflow)
    );
}

#[test]
fn mul_overflow_min_i8() {
    assert_eq!(
        Money::min().checked_mul((100 as i8) as i64),
        Err(Error::Overflow)
    );
}

#[test]
fn test_mul_success_u32() {
    assert_eq!(Money::from(7) * 3 as u32, Money::from(21))
}

#[test]
fn test_mul_success_reversed_u32() {
    assert_eq!(3 as u32 * Money::from(7), Money::from(21))
}

#[test]
fn mul_overflow_max_u32() {
    assert_eq!(
        Money::max().checked_mul((100 as u32) as i64),
        Err(Error::Overflow)
    );
}

#[test]
fn mul_overflow_min_u32() {
    assert_eq!(
        Money::min().checked_mul((100 as u32) as i64),
        Err(Error::Overflow)
    );
}

#[test]
fn test_mul_success_u16() {
    assert_eq!(Money::from(7) * 3 as u16, Money::from(21))
}

#[test]
fn test_mul_success_reversed_u16() {
    assert_eq!(3 as u16 * Money::from(7), Money::from(21))
}

#[test]
fn mul_overflow_max_u16() {
    assert_eq!(
        Money::max().checked_mul((100 as u16) as i64),
        Err(Error::Overflow)
    );
}

#[test]
fn mul_overflow_min_u16() {
    assert_eq!(
        Money::min().checked_mul((100 as u16) as i64),
        Err(Error::Overflow)
    );
}

#[test]
fn test_mul_success_u8() {
    assert_eq!(Money::from(7) * 3 as u8, Money::from(21))
}

#[test]
fn test_mul_success_reversed_u8() {
    assert_eq!(3 as u8 * Money::from(7), Money::from(21))
}

#[test]
fn mul_overflow_max_u8() {
    assert_eq!(
        Money::max().checked_mul((100 as u8) as i64),
        Err(Error::Overflow)
    );
}

#[test]
fn mul_overflow_min_u8() {
    assert_eq!(
        Money::min().checked_mul((100 as u8) as i64),
        Err(Error::Overflow)
    );
}

#[test]
fn test_div_success_i64() {
    assert_eq!(Money::from(21) / 3 as i64, Money::from(7))
}

#[test]
fn test_div_truncates_i64() {
    assert_eq!(Money::from(21) / 2 as i64, Money::from(10))
}

#[test]
fn test_div_success_i32() {
    assert_eq!(Money::from(21) / 3 as i32, Money::from(7))
}

#[test]
fn test_div_truncates_i32() {
    assert_eq!(Money::from(21) / 2 as i32, Money::from(10))
}

#[test]
fn test_div_success_i16() {
    assert_eq!(Money::from(21) / 3 as i16, Money::from(7))
}

#[test]
fn test_div_truncates_i16() {
    assert_eq!(Money::from(21) / 2 as i16, Money::from(10))
}

#[test]
fn test_div_success_i8() {
    assert_eq!(Money::from(21) / 3 as i8, Money::from(7))
}

#[test]
fn test_div_truncates_i8() {
    assert_eq!(Money::from(21) / 2 as i8, Money::from(10))
}

#[test]
fn test_div_success_u32() {
    assert_eq!(Money::from(21) / 3 as u32, Money::from(7))
}

#[test]
fn test_div_truncates_u32() {
    assert_eq!(Money::from(21) / 2 as u32, Money::from(10))
}

#[test]
fn test_div_success_u16() {
    assert_eq!(Money::from(21) / 3 as u16, Money::from(7))
}

#[test]
fn test_div_truncates_u16() {
    assert_eq!(Money::from(21) / 2 as u16, Money::from(10))
}

#[test]
fn test_div_success_u8() {
    assert_eq!(Money::from(21) / 3 as u8, Money::from(7))
}

#[test]
fn test_div_truncates_u8() {
    assert_eq!(Money::from(21) / 2 as u8, Money::from(10))
}

#[test]
fn test_addition_success() {
    assert_eq!(Money::from(1) + Money::from(1), Money::from(2))
}

#[test]
#[should_panic]
#[allow(unused_must_use)]
fn test_addition_failure_overflow_max() {
    Money::max() + Money::from(1);
}

#[test]
#[should_panic]
#[allow(unused_must_use)]
fn test_addition_failure_overflow_min() {
    Money::min() + Money::from(-1);
}

#[test]
fn test_subtraction_success() {
    assert_eq!(Money::from(2) - Money::from(1), Money::from(1))
}

#[test]
#[should_panic]
#[allow(unused_must_use)]
fn test_subtraction_failure_overflow_max() {
    Money::max() - Money::from(-1);
}

#[test]
#[should_panic]
#[allow(unused_must_use)]
fn test_subtraction_failure_overflow_min() {
    Money::min() - Money::from(1);
}

// Comparisons
#[test]
fn test_eq() {
    assert_eq!(Money::from(12300), Money::from(12300))
}

#[test]
fn test_not_eq() {
    assert_ne!(Money::from(12300), Money::from(12400))
}

#[test]
fn test_lt_eq() {
    assert!(Money::from(12300) <= Money::from(12300))
}

#[test]
fn test_gt_eq() {
    assert!(Money::from(12300) >= Money::from(12300))
}

#[test]
fn test_lt() {
    assert!(Money::from(12300) < Money::from(12400))
}

#[test]
fn test_gt() {
    assert!(Money::from(12300) > Money::from(12200))
}

#[test]
fn test_eq_inverse() {
    assert_eq!(Money::from(12300) == Money::from(12301), false)
}

#[test]
fn test_not_eq_inverse() {
    assert_eq!(Money::from(12300) != Money::from(12300), false)
}

#[test]
fn test_lt_eq_inverse() {
    assert_eq!(Money::from(12300) <= Money::from(12299), false)
}

#[test]
fn test_gt_eq_inverse() {
    assert_eq!(Money::from(12300) >= Money::from(12301), false)
}

#[test]
fn test_lt_inverse() {
    assert_eq!(Money::from(12300) < Money::from(12200), false)
}

#[test]
fn test_gt_inverse() {
    assert_eq!(Money::from(12300) > Money::from(12400), false)
}

// Rounding vs. Truncation in Division
#[test]
fn test_truncated_division_i64() {
    assert_eq!(Money::from(87808) / 11 as i64, Money::from(7982))
}

#[test]
fn test_truncated_division_i32() {
    assert_eq!(Money::from(87808) / 11 as i32, Money::from(7982))
}

#[test]
fn test_truncated_division_i16() {
    assert_eq!(Money::from(87808) / 11 as i16, Money::from(7982))
}

#[test]
fn test_truncated_division_i8() {
    assert_eq!(Money::from(87808) / 11 as i8, Money::from(7982))
}

// Precision loss
#[test]
fn test_precision_loss_i64() {
    assert_eq!(
        Money::from(9000000000000009900) / 10 as i64,
        Money::from(900000000000000990)
    )
}

#[test]
fn test_precision_loss_i32() {
    assert_eq!(
        Money::from(9000000000000009900) / 10 as i32,
        Money::from(900000000000000990)
    )
}

#[test]
fn test_precision_loss_i16() {
    assert_eq!(
        Money::from(9000000000000009900) / 10 as i16,
        Money::from(900000000000000990)
    )
}

#[test]
fn test_precision_loss_i8() {
    assert_eq!(
        Money::from(9000000000000009900) / 10 as i8,
        Money::from(900000000000000990)
    )
}
