//! A packed-BCD number in a byte buffer whose integer encodings take the
//! full byte width of the integer's type (a `u16` always gives two bytes).
use vstd::prelude::*;

use crate::codec::{
    bcd_value, check_invalid_bytes, copy_bytes, decode_valid, encode, encoding, invalid_format,
    is_valid_bcd, lemma_round_trip, lemma_valid_trailing, max_value, pow100, resize_bytes, resized,
    to_array, trailing,
};
use crate::error::{BCDConversionError, BCDErrorKind};

verus! {

/// A packed-BCD number held in as many bytes as it was given, most
/// significant first.
#[derive(Debug)]
pub struct BCD {
    data: Vec<u8>,
}

/// The number of bytes of a `usize`.
pub open spec fn usize_width() -> nat {
    (usize::BITS / 8) as nat
}

fn usize_bytes() -> (w: usize)
    ensures
        w == usize_width(),
        w == 4 || w == 8,
{
    (usize::BITS / 8) as usize
}

impl BCD {
    #[verifier::type_invariant]
    spec fn well_formed(self) -> bool {
        is_valid_bcd(self.data@)
    }

    /// Encodes `value` in exactly `width` bytes; `source` names its type in
    /// an overflow's description.
    fn from_integer(value: u128, width: usize, source: &str) -> (r: Result<Self, BCDConversionError>)
        ensures
            r is Ok <==> value <= max_value(width as nat),
            r matches Ok(b) ==> b@ == encoding(value as nat, width as nat),
            r matches Err(e) ==> e.spec_kind() == (BCDErrorKind::Overflow {
                input_value: value,
                max_allowed: max_value(width as nat) as u128,
            }),
    {
        match encode(value, width, source) {
            Ok(bytes) => {
                proof {
                    lemma_round_trip(value as nat, width as nat);
                }
                Ok(BCD { data: bytes })
            },
            Err(e) => Err(e),
        }
    }

    /// The number held in the last `width` bytes (all of them when there are
    /// no more).
    fn number(&self, width: usize) -> (v: u128)
        requires
            width <= 19,
        ensures
            v == bcd_value(trailing(self@, width as nat)),
            v < pow100(width as nat),
    {
        proof {
            use_type_invariant(self);
            lemma_valid_trailing(self.data@, width as nat);
        }
        decode_valid(self.data.as_slice(), width)
    }
}

impl View for BCD {
    type V = Seq<u8>;

    closed spec fn view(&self) -> Seq<u8> {
        self.data@
    }
}

impl<const S: usize> TryFrom<[u8; S]> for BCD {
    type Error = BCDConversionError;

    /// Fails when a byte is not valid packed BCD; otherwise exactly the bytes given.
    fn try_from(data: [u8; S]) -> (r: Result<Self, Self::Error>)
        ensures
            r is Ok <==> is_valid_bcd(data@),
            r matches Ok(b) ==> b@ == data@,
            r matches Err(e) ==> e.spec_kind() == BCDErrorKind::InvalidFormat,
    {
        if check_invalid_bytes(data.as_slice()) {
            return Err(invalid_format());
        }
        Ok(BCD { data: copy_bytes(data.as_slice()) })
    }
}

impl<const S: usize> vstd::std_specs::convert::TryFromSpecImpl<[u8; S]> for BCD {
    open spec fn obeys_try_from_spec() -> bool {
        false
    }

    open spec fn try_from_spec(v: [u8; S]) -> Result<Self, Self::Error> {
        arbitrary()
    }
}

impl<const S: usize> From<BCD> for [u8; S] {
    /// The bytes brought to `S`, dropping leading bytes or putting zero bytes
    /// in front.
    fn from(val: BCD) -> (r: [u8; S])
        ensures
            r@ == resized(val@, S as nat),
    {
        to_array(&resize_bytes(val.data.as_slice(), S))
    }
}

impl<const S: usize> vstd::std_specs::convert::FromSpecImpl<BCD> for [u8; S] {
    open spec fn obeys_from_spec() -> bool {
        false
    }

    open spec fn from_spec(v: BCD) -> [u8; S] {
        arbitrary()
    }
}

impl TryFrom<u8> for BCD {
    type Error = BCDConversionError;

    /// Encodes `value` in 1 byte. Fails with an overflow when it exceeds
    /// `10^2 - 1`.
    fn try_from(value: u8) -> (r: Result<Self, Self::Error>)
        ensures
            r is Ok <==> value <= max_value(1),
            r matches Ok(b) ==> b@ == encoding(value as nat, 1),
            r matches Err(e) ==> e.spec_kind() == (BCDErrorKind::Overflow {
                input_value: value as u128,
                max_allowed: max_value(1) as u128,
            }),
    {
        Self::from_integer(value as u128, 1, "u8")
    }
}

impl vstd::std_specs::convert::TryFromSpecImpl<u8> for BCD {
    open spec fn obeys_try_from_spec() -> bool {
        false
    }

    open spec fn try_from_spec(v: u8) -> Result<Self, Self::Error> {
        arbitrary()
    }
}

impl From<BCD> for u8 {
    /// The number held in the last 1 byte (all of them when there are no
    /// more): the leading bytes are not read.
    fn from(val: BCD) -> (r: u8)
        ensures
            r == bcd_value(trailing(val@, 1)),
    {
        let v = val.number(1);
        proof {
            reveal_with_fuel(pow100, 2);
        }
        v as u8
    }
}

impl vstd::std_specs::convert::FromSpecImpl<BCD> for u8 {
    open spec fn obeys_from_spec() -> bool {
        true
    }

    open spec fn from_spec(v: BCD) -> u8 {
        bcd_value(trailing(v@, 1)) as u8
    }
}

impl TryFrom<u16> for BCD {
    type Error = BCDConversionError;

    /// Encodes `value` in 2 bytes. Fails with an overflow when it exceeds
    /// `10^4 - 1`.
    fn try_from(value: u16) -> (r: Result<Self, Self::Error>)
        ensures
            r is Ok <==> value <= max_value(2),
            r matches Ok(b) ==> b@ == encoding(value as nat, 2),
            r matches Err(e) ==> e.spec_kind() == (BCDErrorKind::Overflow {
                input_value: value as u128,
                max_allowed: max_value(2) as u128,
            }),
    {
        Self::from_integer(value as u128, 2, "u16")
    }
}

impl vstd::std_specs::convert::TryFromSpecImpl<u16> for BCD {
    open spec fn obeys_try_from_spec() -> bool {
        false
    }

    open spec fn try_from_spec(v: u16) -> Result<Self, Self::Error> {
        arbitrary()
    }
}

impl From<BCD> for u16 {
    /// The number held in the last 2 bytes (all of them when there are no
    /// more): the leading bytes are not read.
    fn from(val: BCD) -> (r: u16)
        ensures
            r == bcd_value(trailing(val@, 2)),
    {
        let v = val.number(2);
        proof {
            reveal_with_fuel(pow100, 3);
        }
        v as u16
    }
}

impl vstd::std_specs::convert::FromSpecImpl<BCD> for u16 {
    open spec fn obeys_from_spec() -> bool {
        true
    }

    open spec fn from_spec(v: BCD) -> u16 {
        bcd_value(trailing(v@, 2)) as u16
    }
}

impl TryFrom<u32> for BCD {
    type Error = BCDConversionError;

    /// Encodes `value` in 4 bytes. Fails with an overflow when it exceeds
    /// `10^8 - 1`.
    fn try_from(value: u32) -> (r: Result<Self, Self::Error>)
        ensures
            r is Ok <==> value <= max_value(4),
            r matches Ok(b) ==> b@ == encoding(value as nat, 4),
            r matches Err(e) ==> e.spec_kind() == (BCDErrorKind::Overflow {
                input_value: value as u128,
                max_allowed: max_value(4) as u128,
            }),
    {
        Self::from_integer(value as u128, 4, "u32")
    }
}

impl vstd::std_specs::convert::TryFromSpecImpl<u32> for BCD {
    open spec fn obeys_try_from_spec() -> bool {
        false
    }

    open spec fn try_from_spec(v: u32) -> Result<Self, Self::Error> {
        arbitrary()
    }
}

impl From<BCD> for u32 {
    /// The number held in the last 4 bytes (all of them when there are no
    /// more): the leading bytes are not read.
    fn from(val: BCD) -> (r: u32)
        ensures
            r == bcd_value(trailing(val@, 4)),
    {
        let v = val.number(4);
        proof {
            reveal_with_fuel(pow100, 5);
        }
        v as u32
    }
}

impl vstd::std_specs::convert::FromSpecImpl<BCD> for u32 {
    open spec fn obeys_from_spec() -> bool {
        true
    }

    open spec fn from_spec(v: BCD) -> u32 {
        bcd_value(trailing(v@, 4)) as u32
    }
}

impl TryFrom<u64> for BCD {
    type Error = BCDConversionError;

    /// Encodes `value` in 8 bytes. Fails with an overflow when it exceeds
    /// `10^16 - 1`.
    fn try_from(value: u64) -> (r: Result<Self, Self::Error>)
        ensures
            r is Ok <==> value <= max_value(8),
            r matches Ok(b) ==> b@ == encoding(value as nat, 8),
            r matches Err(e) ==> e.spec_kind() == (BCDErrorKind::Overflow {
                input_value: value as u128,
                max_allowed: max_value(8) as u128,
            }),
    {
        Self::from_integer(value as u128, 8, "u64")
    }
}

impl vstd::std_specs::convert::TryFromSpecImpl<u64> for BCD {
    open spec fn obeys_try_from_spec() -> bool {
        false
    }

    open spec fn try_from_spec(v: u64) -> Result<Self, Self::Error> {
        arbitrary()
    }
}

impl From<BCD> for u64 {
    /// The number held in the last 8 bytes (all of them when there are no
    /// more): the leading bytes are not read.
    fn from(val: BCD) -> (r: u64)
        ensures
            r == bcd_value(trailing(val@, 8)),
    {
        let v = val.number(8);
        proof {
            reveal_with_fuel(pow100, 9);
        }
        v as u64
    }
}

impl vstd::std_specs::convert::FromSpecImpl<BCD> for u64 {
    open spec fn obeys_from_spec() -> bool {
        true
    }

    open spec fn from_spec(v: BCD) -> u64 {
        bcd_value(trailing(v@, 8)) as u64
    }
}

impl TryFrom<u128> for BCD {
    type Error = BCDConversionError;

    /// Encodes `value` in 16 bytes. Fails with an overflow when it exceeds
    /// `10^32 - 1`.
    fn try_from(value: u128) -> (r: Result<Self, Self::Error>)
        ensures
            r is Ok <==> value <= max_value(16),
            r matches Ok(b) ==> b@ == encoding(value as nat, 16),
            r matches Err(e) ==> e.spec_kind() == (BCDErrorKind::Overflow {
                input_value: value as u128,
                max_allowed: max_value(16) as u128,
            }),
    {
        Self::from_integer(value as u128, 16, "u128")
    }
}

impl vstd::std_specs::convert::TryFromSpecImpl<u128> for BCD {
    open spec fn obeys_try_from_spec() -> bool {
        false
    }

    open spec fn try_from_spec(v: u128) -> Result<Self, Self::Error> {
        arbitrary()
    }
}

impl From<BCD> for u128 {
    /// The number held in the last 16 bytes (all of them when there are no
    /// more): the leading bytes are not read.
    fn from(val: BCD) -> (r: u128)
        ensures
            r == bcd_value(trailing(val@, 16)),
    {
        let v = val.number(16);
        proof {
            reveal_with_fuel(pow100, 17);
        }
        v as u128
    }
}

impl vstd::std_specs::convert::FromSpecImpl<BCD> for u128 {
    open spec fn obeys_from_spec() -> bool {
        true
    }

    open spec fn from_spec(v: BCD) -> u128 {
        bcd_value(trailing(v@, 16)) as u128
    }
}

impl TryFrom<usize> for BCD {
    type Error = BCDConversionError;

    /// Encodes `value` in as many bytes as a `usize` has. Fails with an
    /// overflow when it exceeds `10^(2 * usize_width()) - 1`.
    fn try_from(value: usize) -> (r: Result<Self, Self::Error>)
        ensures
            r is Ok <==> value <= max_value(usize_width()),
            r matches Ok(b) ==> b@ == encoding(value as nat, usize_width()),
            r matches Err(e) ==> e.spec_kind() == (BCDErrorKind::Overflow {
                input_value: value as u128,
                max_allowed: max_value(usize_width()) as u128,
            }),
    {
        Self::from_integer(value as u128, usize_bytes(), "usize")
    }
}

impl vstd::std_specs::convert::TryFromSpecImpl<usize> for BCD {
    open spec fn obeys_try_from_spec() -> bool {
        false
    }

    open spec fn try_from_spec(v: usize) -> Result<Self, Self::Error> {
        arbitrary()
    }
}

impl From<BCD> for usize {
    /// The number held in the last bytes, as many as a `usize` has (all of
    /// them when there are no more): the leading bytes are not read.
    fn from(val: BCD) -> (r: usize)
        ensures
            r == bcd_value(trailing(val@, usize_width())),
    {
        let width = usize_bytes();
        let v = val.number(width);
        proof {
            reveal_with_fuel(pow100, 9);
        }
        v as usize
    }
}

impl vstd::std_specs::convert::FromSpecImpl<BCD> for usize {
    open spec fn obeys_from_spec() -> bool {
        true
    }

    open spec fn from_spec(v: BCD) -> usize {
        bcd_value(trailing(v@, usize_width())) as usize
    }
}

} // verus!
