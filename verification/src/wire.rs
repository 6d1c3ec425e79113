use crate::money::Money;
use byteorder::{BigEndian, ReadBytesExt};
use bytes::{BufMut, BytesMut};
use vstd::prelude::*;

verus! {

/// Why a buffer could not be decoded.
#[derive(Clone, Copy, Debug, PartialEq, Eq, Hash, Structural)]
pub enum WireError {
    /// The buffer holds fewer than eight bytes.
    TooShort,
    /// The buffer holds more than eight bytes.
    TooLong,
}

/// Declares `bytes::BytesMut`, the growable byte buffer that a database
/// driver hands to an encoder. Nothing is claimed of what is inside a value
/// but through `buffer_bytes`.
#[verifier::external_type_specification]
#[verifier::external_body]
pub struct ExBytesMut(bytes::BytesMut);

/// Declares `std::io::Error`, the error of a read that ran out of bytes.
/// Nothing is claimed of what is inside a value.
#[verifier::external_type_specification]
#[verifier::external_body]
pub struct ExIoError(std::io::Error);

/// The bytes that a `BytesMut` holds, first to last: what its `as_ref` gives.
pub uninterp spec fn buffer_bytes(buf: BytesMut) -> Seq<u8>;

/// The signed 64-bit integer that eight bytes hold in big-endian two's
/// complement: the first byte is the most significant.
pub open spec fn be_value(b: Seq<u8>) -> int
    recommends
        b.len() == 8,
{
    let u = b[0] * 0x100_0000_0000_0000 + b[1] * 0x1_0000_0000_0000 + b[2] * 0x100_0000_0000
        + b[3] * 0x1_0000_0000 + b[4] * 0x100_0000 + b[5] * 0x1_0000 + b[6] * 0x100 + b[7];
    if u >= 0x8000_0000_0000_0000 {
        u - 0x1_0000_0000_0000_0000
    } else {
        u
    }
}

/// The eight bytes that hold a signed 64-bit integer in big-endian two's
/// complement.
pub open spec fn be_bytes(v: i64) -> Seq<u8> {
    let u: int = if v < 0 {
        v + 0x1_0000_0000_0000_0000
    } else {
        v as int
    };
    seq![
        (u / 0x100_0000_0000_0000 % 256) as u8,
        (u / 0x1_0000_0000_0000 % 256) as u8,
        (u / 0x100_0000_0000 % 256) as u8,
        (u / 0x1_0000_0000 % 256) as u8,
        (u / 0x100_0000 % 256) as u8,
        (u / 0x1_0000 % 256) as u8,
        (u / 0x100 % 256) as u8,
        (u % 256) as u8,
    ]
}

/// The eight bytes of an integer hold that integer.
pub proof fn lemma_be_roundtrip(v: i64)
    ensures
        be_bytes(v).len() == 8,
        be_value(be_bytes(v)) == v,
{
    let u: int = if v < 0 {
        v + 0x1_0000_0000_0000_0000
    } else {
        v as int
    };
    let q1 = u / 0x100;
    let q2 = u / 0x1_0000;
    let q3 = u / 0x100_0000;
    let q4 = u / 0x1_0000_0000;
    let q5 = u / 0x100_0000_0000;
    let q6 = u / 0x1_0000_0000_0000;
    let q7 = u / 0x100_0000_0000_0000;
    assert(q2 == q1 / 256);
    assert(q3 == q2 / 256);
    assert(q4 == q3 / 256);
    assert(q5 == q4 / 256);
    assert(q6 == q5 / 256);
    assert(q7 == q6 / 256);
    assert(0 <= q7 < 256);
    assert(u == q1 * 256 + u % 256);
    assert(q1 == q2 * 256 + q1 % 256);
    assert(q2 == q3 * 256 + q2 % 256);
    assert(q3 == q4 * 256 + q3 % 256);
    assert(q4 == q5 * 256 + q4 % 256);
    assert(q5 == q6 * 256 + q5 % 256);
    assert(q6 == q7 * 256 + q6 % 256);
    let b = be_bytes(v);
    assert(b[0] == q7 % 256 && b[1] == q6 % 256 && b[2] == q5 % 256 && b[3] == q4 % 256);
    assert(b[4] == q3 % 256 && b[5] == q2 % 256 && b[6] == q1 % 256 && b[7] == u % 256);
    assert(b[0] * 0x100_0000_0000_0000 + b[1] * 0x1_0000_0000_0000 + b[2] * 0x100_0000_0000
        + b[3] * 0x1_0000_0000 + b[4] * 0x100_0000 + b[5] * 0x1_0000 + b[6] * 0x100 + b[7] == u);
}

/// Calls `byteorder::ReadBytesExt::read_i64::<BigEndian>` on a byte slice.
/// Claimed of it: it fails exactly on a slice of fewer than eight bytes; else
/// it returns the integer that the first eight bytes hold in big-endian two's
/// complement and leaves the slice at the bytes behind them, which are
/// returned beside the integer.
#[verifier::external_body]
fn read_i64_be(buf: &[u8]) -> (r: Result<(i64, &[u8]), std::io::Error>)
    ensures
        match r {
            Ok((v, rest)) => {
                &&& buf@.len() >= 8
                &&& v == be_value(buf@.subrange(0, 8))
                &&& rest@ == buf@.subrange(8, buf@.len() as int)
            },
            Err(_) => buf@.len() < 8,
        },
{
    let mut rest = buf;
    let v = rest.read_i64::<BigEndian>()?;
    Ok((v, rest))
}

/// Calls `bytes::BufMut::put_i64` on a `BytesMut`. Claimed of it: it appends
/// the eight bytes that hold the integer in big-endian two's complement and
/// leaves what the buffer held before in place.
#[verifier::external_body]
fn put_i64_be(buf: &mut BytesMut, v: i64)
    ensures
        buffer_bytes(*final(buf)) == buffer_bytes(*old(buf)) + be_bytes(v),
{
    buf.put_i64(v)
}

impl Money {
    /// Decodes an amount from its wire form: exactly eight bytes that hold
    /// the count of hundredths in big-endian two's complement.
    pub fn from_sql(buf: &[u8]) -> (r: Result<Money, WireError>)
        ensures
            match r {
                Ok(m) => buf@.len() == 8 && m@ == be_value(buf@),
                Err(WireError::TooShort) => buf@.len() < 8,
                Err(WireError::TooLong) => buf@.len() > 8,
            },
    {
        match read_i64_be(buf) {
            Err(_) => Err(WireError::TooShort),
            Ok((v, rest)) => {
                if rest.len() != 0 {
                    return Err(WireError::TooLong);
                }
                assert(buf@.subrange(0, 8) =~= buf@);
                Ok(Money::from(v))
            },
        }
    }

    /// Encodes the amount in its wire form: appends to `out` the eight bytes
    /// that hold the count of hundredths in big-endian two's complement.
    pub fn to_sql(&self, out: &mut BytesMut)
        ensures
            buffer_bytes(*final(out)) == buffer_bytes(*old(out)) + be_bytes(self@ as i64),
    {
        put_i64_be(out, self.inner());
    }
}

/// Decoding what encoding wrote gives the amount back.
pub proof fn lemma_wire_roundtrip(v: Money)
    ensures
        be_bytes(v@ as i64).len() == 8,
        be_value(be_bytes(v@ as i64)) == v@,
{
    v.lemma_view();
    lemma_be_roundtrip(v@ as i64);
}

} // verus!
