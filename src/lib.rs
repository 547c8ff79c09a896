//! Packed binary-coded decimal: unsigned integers stored as big-endian
//! bytes that each hold two decimal digits, one per nibble.
//!
//! `BCD<BYTES>` holds a fixed byte count, `DynBCD` as many bytes as its value
//! needs, and `padded::BCD` the full byte width of the integer type it was
//! made from. `ToBCD` and `FromBCD` pack digits into an integer's own bytes.
pub mod bcd;
pub mod codec;
pub mod digits;
pub mod error;
pub mod padded;
pub mod word;

pub use bcd::{Convertible, DynBCD, BCD};
pub use error::{BCDConversionError, BCDErrorKind};
pub use word::{FromBCD, ToBCD};
