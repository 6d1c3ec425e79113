use bytes::BytesMut;
use postgres_money::wire::WireError;
use postgres_money::Money;

#[test]
fn encodes_big_endian() {
    let mut out = BytesMut::new();
    Money::from(0x0102030405060708).to_sql(&mut out);
    assert_eq!(&out[..], &[1u8, 2, 3, 4, 5, 6, 7, 8][..]);
}

#[test]
fn encodes_behind_what_is_there() {
    let mut out = BytesMut::new();
    out.extend_from_slice(&[0xAA, 0xBB]);
    Money::from(-2).to_sql(&mut out);
    assert_eq!(
        &out[..],
        &[0xAAu8, 0xBB, 0xFF, 0xFF, 0xFF, 0xFF, 0xFF, 0xFF, 0xFF, 0xFE][..]
    );
}

#[test]
fn decodes_big_endian() {
    assert_eq!(
        Money::from_sql(&[1, 2, 3, 4, 5, 6, 7, 8]),
        Ok(Money::from(0x0102030405060708))
    );
    assert_eq!(Money::from_sql(&[0x80, 0, 0, 0, 0, 0, 0, 0]), Ok(Money::min()));
    assert_eq!(
        Money::from_sql(&[0x7F, 0xFF, 0xFF, 0xFF, 0xFF, 0xFF, 0xFF, 0xFF]),
        Ok(Money::max())
    );
    assert_eq!(
        Money::from_sql(&[0xFF, 0xFF, 0xFF, 0xFF, 0xFF, 0xFF, 0xCF, 0xC7]),
        Ok(Money::from(-12345))
    );
}

#[test]
fn decodes_eight_bytes_only() {
    assert_eq!(Money::from_sql(&[]), Err(WireError::TooShort));
    assert_eq!(Money::from_sql(&[0, 0, 0, 0, 0, 0, 1]), Err(WireError::TooShort));
    assert_eq!(
        Money::from_sql(&[0, 0, 0, 0, 0, 0, 0, 1, 0]),
        Err(WireError::TooLong)
    );
}

#[test]
fn decoding_undoes_encoding() {
    let samples: [i64; 9] = [0, 1, -1, 255, 256, -12345, 1234567890123456700, i64::MAX, i64::MIN];
    for raw in samples {
        let mut out = BytesMut::new();
        Money::from(raw).to_sql(&mut out);
        assert_eq!(out.len(), 8);
        assert_eq!(Money::from_sql(&out[..]), Ok(Money::from(raw)));
    }
}
