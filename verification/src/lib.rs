//! A fixed-point currency value: a signed 64-bit count of hundredths of a
//! unit, with overflow-checked arithmetic, a parser for the `en_US` money
//! notation and a canonical rendering.

pub mod digits;
pub mod display;
pub mod error;
pub mod money;
pub mod ops;
pub mod ordering;
pub mod parser;
pub mod roundtrip;
pub mod wire;

pub use error::Error;
pub use money::Money;
