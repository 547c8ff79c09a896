//! The digit-pair codec: one byte holds two decimal digits, the tens in the
//! high nibble and the ones in the low nibble.
use vstd::prelude::*;

verus! {

/// The high nibble of a byte.
pub open spec fn high_nibble(b: u8) -> u8 {
    b / 16
}

/// The low nibble of a byte.
pub open spec fn low_nibble(b: u8) -> u8 {
    b % 16
}

/// A byte is valid packed BCD when both of its nibbles are decimal digits.
pub open spec fn is_valid_byte(b: u8) -> bool {
    high_nibble(b) <= 9 && low_nibble(b) <= 9
}

/// The number in `[0, 99]` that a valid byte stands for.
pub open spec fn byte_value(b: u8) -> nat {
    (high_nibble(b) * 10 + low_nibble(b)) as nat
}

/// The byte that stands for a digit pair `p < 100`.
pub open spec fn pair_byte(p: nat) -> u8 {
    ((p / 10) * 16 + p % 10) as u8
}

/// Packs two digits into one byte: `tens` in the high nibble, `ones` in the low.
pub fn pack(tens: u8, ones: u8) -> (b: u8)
    requires
        tens <= 9,
        ones <= 9,
    ensures
        high_nibble(b) == tens,
        low_nibble(b) == ones,
        b == pair_byte((tens * 10 + ones) as nat),
{
    assert((tens << 4u8) | ones == tens * 16 + ones) by (bit_vector)
        requires
            tens <= 9,
            ones <= 9,
    ;
    (tens << 4u8) | ones
}

/// Splits a byte into its high and low nibble.
pub fn unpack(b: u8) -> (r: (u8, u8))
    ensures
        r.0 == high_nibble(b),
        r.1 == low_nibble(b),
{
    assert((b & 0xf0u8) >> 4u8 == b / 16 && b & 0x0fu8 == b % 16) by (bit_vector);
    ((b & 0xf0u8) >> 4u8, b & 0x0fu8)
}

/// Whether both nibbles of `b` are decimal digits.
pub fn validate(b: u8) -> (r: bool)
    ensures
        r == is_valid_byte(b),
{
    let (high, low) = unpack(b);
    high <= 9 && low <= 9
}

/// The byte for a digit pair below one hundred.
pub fn pair_to_byte(p: u8) -> (b: u8)
    requires
        p < 100,
    ensures
        b == pair_byte(p as nat),
        is_valid_byte(b),
        byte_value(b) == p,
{
    let b = pack(p / 10, p % 10);
    b
}

/// The digit pair that a valid byte stands for.
pub fn byte_to_pair(b: u8) -> (p: u8)
    requires
        is_valid_byte(b),
    ensures
        p == byte_value(b),
        p < 100,
{
    let (high, low) = unpack(b);
    high * 10 + low
}

} // verus!
