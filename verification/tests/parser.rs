use postgres_money::{Error, Money};

// Money::parse_str
#[test]
fn parser_test_valid_123_45() {
    assert_eq!(Money::parse_str("$123.45"), Ok(Money::from(12345)))
}

#[test]
fn parser_test_valid_123_451() {
    assert_eq!(Money::parse_str("$123.451"), Ok(Money::from(12345)))
}

#[test]
fn parser_test_valid_123_454() {
    assert_eq!(Money::parse_str("$123.454"), Ok(Money::from(12345)))
}

#[test]
fn parser_test_valid_123_455() {
    assert_eq!(Money::parse_str("$123.455"), Ok(Money::from(12346)))
}

#[test]
fn parser_test_valid_123_456() {
    assert_eq!(Money::parse_str("$123.456"), Ok(Money::from(12346)))
}

#[test]
fn parser_test_valid_123_459() {
    assert_eq!(Money::parse_str("$123.459"), Ok(Money::from(12346)))
}

#[test]
fn parser_test_valid_1234567890() {
    assert_eq!(Money::parse_str("1234567890"), Ok(Money::from(123456789000)))
}

#[test]
fn parser_test_valid_12345678901234567() {
    assert_eq!(
        Money::parse_str("12345678901234567"),
        Ok(Money::from(1234567890123456700))
    )
}

#[test]
fn parser_test_invalid_123456789012345678() {
    assert_eq!(
        Money::parse_str("123456789012345678"),
        Err(Error::OutOfRange)
    )
}

#[test]
fn parser_test_invalid_9223372036854775807() {
    assert_eq!(
        Money::parse_str("9223372036854775807"),
        Err(Error::OutOfRange)
    )
}

#[test]
fn parser_test_valid_neg_12345() {
    assert_eq!(Money::parse_str("-12345"), Ok(Money::from(-1234500)))
}

#[test]
fn parser_test_valid_neg_1234567890() {
    assert_eq!(Money::parse_str("-1234567890"), Ok(Money::from(-123456789000)))
}

#[test]
fn parser_test_valid_neg_12345678901234567() {
    assert_eq!(
        Money::parse_str("-12345678901234567"),
        Ok(Money::from(-1234567890123456700))
    )
}

#[test]
fn parser_test_invalid_neg_123456789012345678() {
    assert_eq!(
        Money::parse_str("-123456789012345678"),
        Err(Error::OutOfRange)
    )
}

#[test]
fn parser_test_invalid_neg_9223372036854775808() {
    assert_eq!(
        Money::parse_str("-9223372036854775808"),
        Err(Error::OutOfRange)
    )
}

#[test]
fn test_valid_paren_1() {
    assert_eq!(Money::parse_str("(1)"), Ok(Money::from(-100)))
}

#[test]
fn test_valid_paren_123456_78() {
    assert_eq!(Money::parse_str("($123,456.78)"), Ok(Money::from(-12345678)))
}

#[test]
fn test_valid_min() {
    assert_eq!(Money::parse_str("-92233720368547758.08"), Ok(Money::min()))
}

#[test]
fn test_valid_max() {
    assert_eq!(Money::parse_str("92233720368547758.07"), Ok(Money::max()))
}

#[test]
fn test_invalid_min() {
    assert_eq!(
        Money::parse_str("-92233720368547758.085"),
        Err(Error::OutOfRange)
    )
}

#[test]
fn test_invalid_max() {
    assert_eq!(
        Money::parse_str("92233720368547758.075"),
        Err(Error::OutOfRange)
    )
}

// Money Ops
#[test]
fn test_valid_123_45_int() {
    assert_eq!(Money::from(12345), Money::from(12345))
}

#[test]
fn test_valid_123_451_int() {
    assert_eq!(Money::from(123451), Money::from(123451))
}

#[test]
fn test_valid_123_454_int() {
    assert_eq!(Money::from(123454), Money::from(123454))
}

#[test]
fn test_valid_1234567890_int() {
    assert_eq!(Money::from(1234567890), Money::from(1234567890))
}

#[test]
fn test_valid_12345678901234567_int() {
    assert_eq!(
        Money::from(12345678901234567),
        Money::from(12345678901234567)
    )
}

#[test]
fn test_valid_neg_12345678901234567_int() {
    assert_eq!(
        Money::from(-12345678901234567),
        Money::from(-12345678901234567)
    )
}

#[test]
fn test_valid_neg_123456_78_int() {
    assert_eq!(Money::from(-12345678), Money::from(-12345678))
}
