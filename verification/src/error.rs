use vstd::prelude::*;

verus! {

/// Why an amount could not be produced.
#[derive(Clone, Copy, Debug, PartialEq, Eq, Hash, Structural)]
pub enum Error {
    /// The magnitude does not fit the signed 64-bit range of hundredths.
    OutOfRange,
    /// A digit run could not be converted for a reason other than its size.
    ParseInt,
    /// The text does not have the shape of an amount.
    InvalidString,
    /// An arithmetic result lies outside the signed 64-bit range.
    Overflow,
    /// The divisor was zero.
    DivideByZero,
}

} // verus!
