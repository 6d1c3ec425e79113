use postgres_money::{Error, Money};

#[test]
fn mod_test_valid_123_45() {
    assert_eq!(Money::parse_str("$123.45"), Ok(Money::from(12345)))
}

#[test]
fn mod_test_valid_123_451() {
    assert_eq!(Money::parse_str("$123.451"), Ok(Money::from(12345)))
}

#[test]
fn mod_test_valid_123_454() {
    assert_eq!(Money::parse_str("$123.454"), Ok(Money::from(12345)))
}

#[test]
fn mod_test_valid_123_455() {
    assert_eq!(Money::parse_str("$123.455"), Ok(Money::from(12346)))
}

#[test]
fn mod_test_valid_123_456() {
    assert_eq!(Money::parse_str("$123.456"), Ok(Money::from(12346)))
}

#[test]
fn mod_test_valid_123_459() {
    assert_eq!(Money::parse_str("$123.459"), Ok(Money::from(12346)))
}

#[test]
fn mod_test_valid_1234567890() {
    assert_eq!(Money::parse_str("1234567890"), Ok(Money::from(123456789000)))
}

#[test]
fn mod_test_valid_12345678901234567() {
    assert_eq!(Money::parse_str("12345678901234567"), Ok(Money::from(1234567890123456700)))
}

#[test]
fn mod_test_invalid_123456789012345678() {
    assert_eq!(Money::parse_str("123456789012345678"), Err(Error::OutOfRange))
}

#[test]
fn mod_test_invalid_9223372036854775807() {
    assert_eq!(Money::parse_str("9223372036854775807"), Err(Error::OutOfRange))
}

#[test]
fn mod_test_valid_neg_12345() {
    assert_eq!(Money::parse_str("-12345"), Ok(Money::from(-1234500)))
}

#[test]
fn mod_test_valid_neg_1234567890() {
    assert_eq!(Money::parse_str("-1234567890"), Ok(Money::from(-123456789000)))
}

#[test]
fn mod_test_valid_neg_12345678901234567() {
    assert_eq!(Money::parse_str("-12345678901234567"), Ok(Money::from(-1234567890123456700)))
}

#[test]
fn mod_test_invalid_neg_123456789012345678() {
    assert_eq!(Money::parse_str("-123456789012345678"), Err(Error::OutOfRange))
}

#[test]
fn mod_test_invalid_neg_9223372036854775808() {
    assert_eq!(Money::parse_str("-9223372036854775808"), Err(Error::OutOfRange))
}
