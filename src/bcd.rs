//! Packed-BCD containers: `BCD<BYTES>`, whose byte count is part of its type,
//! and `DynBCD`, whose byte count is chosen per value.
use vstd::prelude::*;

use vstd::std_specs::iter::IteratorSpec;

use crate::codec::{
    bcd_value, check_invalid_bytes, copy_bytes, decode_valid, encode, encode_minimal, encoding,
    invalid_format, is_valid_bcd, lemma_min_pairs, lemma_resized_shape, lemma_round_trip,
    lemma_valid_trailing, max_value, min_pairs, pow100, resize_bytes, resized, to_array, trailing,
};
use crate::error::{BCDConversionError, BCDErrorKind};

verus! {

/// A packed-BCD number of exactly `BYTES` bytes, most significant first.
#[derive(Clone, Copy, Debug)]
pub struct BCD<const BYTES: usize> {
    data: [u8; BYTES],
}

/// Conversion of a container into another of a different byte count.
pub trait Convertible<T> {
    /// What `convert` gives for `self`.
    spec fn converts_to(&self, r: T) -> bool;

    fn convert(&self) -> (r: T)
        ensures
            self.converts_to(r),
    ;
}

impl<const BYTES: usize> BCD<BYTES> {
    #[verifier::type_invariant]
    spec fn well_formed(self) -> bool {
        is_valid_bcd(self.data@)
    }

    /// A container of bytes already known to be valid.
    fn from_valid(bytes: &Vec<u8>) -> (r: Self)
        requires
            bytes@.len() == BYTES,
            is_valid_bcd(bytes@),
        ensures
            r@ == bytes@,
    {
        BCD { data: to_array(bytes) }
    }

    /// Encodes `value`; `source` names its type in an overflow's description.
    fn from_integer(value: u128, source: &str) -> (r: Result<Self, BCDConversionError>)
        ensures
            r is Ok <==> value <= max_value(BYTES as nat),
            r matches Ok(b) ==> b@ == encoding(value as nat, BYTES as nat),
            r matches Err(e) ==> e.spec_kind() == (BCDErrorKind::Overflow {
                input_value: value,
                max_allowed: max_value(BYTES as nat) as u128,
            }),
    {
        match encode(value, BYTES, source) {
            Ok(bytes) => {
                proof {
                    lemma_round_trip(value as nat, BYTES as nat);
                }
                Ok(Self::from_valid(&bytes))
            },
            Err(e) => Err(e),
        }
    }

    /// Encodes `value` in `BYTES` bytes. Fails with an overflow when it
    /// exceeds `10^(2 * BYTES) - 1`.
    pub fn new(value: u128) -> (r: Result<Self, BCDConversionError>)
        ensures
            r is Ok <==> value <= max_value(BYTES as nat),
            r matches Ok(b) ==> b@ == encoding(value as nat, BYTES as nat),
            r matches Err(e) ==> e.spec_kind() == (BCDErrorKind::Overflow {
                input_value: value,
                max_allowed: max_value(BYTES as nat) as u128,
            }),
    {
        Self::from_integer(value, "u128")
    }

    /// The number held, read from the last 16 bytes at most (those a `u128`
    /// holds): with more bytes the leading ones are not read.
    pub fn get_number(&self) -> (v: u128)
        ensures
            v == bcd_value(trailing(self@, 16)),
    {
        proof {
            use_type_invariant(self);
        }
        let v = decode_valid(self.data.as_slice(), 16);
        v
    }
}

impl<const BYTES: usize> View for BCD<BYTES> {
    type V = Seq<u8>;

    closed spec fn view(&self) -> Seq<u8> {
        self.data@
    }
}

impl<const BYTES: usize> PartialEq for BCD<BYTES> {
    fn eq(&self, other: &BCD<BYTES>) -> (r: bool)
        ensures
            r == (self@ == other@),
    {
        let mut i: usize = 0;
        while i < BYTES
            invariant
                i <= BYTES,
                self.data@.len() == BYTES,
                other.data@.len() == BYTES,
                forall|j: int| 0 <= j < i ==> self.data@[j] == other.data@[j],
            decreases BYTES - i,
        {
            if self.data[i] != other.data[i] {
                return false;
            }
            i = i + 1;
        }
        assert(self.data@ =~= other.data@);
        true
    }
}

impl<const BYTES: usize> vstd::std_specs::cmp::PartialEqSpecImpl for BCD<BYTES> {
    open spec fn obeys_eq_spec() -> bool {
        true
    }

    open spec fn eq_spec(&self, other: &BCD<BYTES>) -> bool {
        self@ == other@
    }
}

impl<const BYTES_OG: usize, const BYTES_DST: usize> Convertible<BCD<BYTES_DST>> for BCD<BYTES_OG> {
    /// The same number in `BYTES_DST` bytes: the leading bytes are dropped
    /// when there are fewer, zero bytes are put in front when there are more.
    open spec fn converts_to(&self, r: BCD<BYTES_DST>) -> bool {
        r@ == resized(self@, BYTES_DST as nat)
    }

    fn convert(&self) -> BCD<BYTES_DST> {
        proof {
            use_type_invariant(self);
            lemma_resized_shape(self.data@, BYTES_DST as nat);
        }
        BCD::from_valid(&resize_bytes(self.data.as_slice(), BYTES_DST))
    }
}

impl<const BYTES: usize> TryFrom<&[u8]> for BCD<BYTES> {
    type Error = BCDConversionError;

    /// Fails when a byte is not valid packed BCD; otherwise the bytes brought
    /// to `BYTES`, dropping leading bytes or putting zero bytes in front.
    fn try_from(value: &[u8]) -> (r: Result<Self, Self::Error>)
        ensures
            r is Ok <==> is_valid_bcd(value@),
            r matches Ok(b) ==> b@ == resized(value@, BYTES as nat),
            r matches Err(e) ==> e.spec_kind() == BCDErrorKind::InvalidFormat,
    {
        if check_invalid_bytes(value) {
            return Err(invalid_format());
        }
        proof {
            lemma_resized_shape(value@, BYTES as nat);
        }
        Ok(Self::from_valid(&resize_bytes(value, BYTES)))
    }
}

impl<const BYTES: usize> vstd::std_specs::convert::TryFromSpecImpl<&[u8]> for BCD<BYTES> {
    open spec fn obeys_try_from_spec() -> bool {
        false
    }

    open spec fn try_from_spec(v: &[u8]) -> Result<Self, Self::Error> {
        arbitrary()
    }
}

impl<const BYTES_OG: usize, const BYTES_DST: usize> TryFrom<[u8; BYTES_OG]> for BCD<BYTES_DST> {
    type Error = BCDConversionError;

    /// Fails when a byte is not valid packed BCD; otherwise the bytes brought
    /// to `BYTES_DST`, dropping leading bytes or putting zero bytes in front.
    fn try_from(value: [u8; BYTES_OG]) -> (r: Result<Self, Self::Error>)
        ensures
            r is Ok <==> is_valid_bcd(value@),
            r matches Ok(b) ==> b@ == resized(value@, BYTES_DST as nat),
            r matches Err(e) ==> e.spec_kind() == BCDErrorKind::InvalidFormat,
    {
        <Self as TryFrom<&[u8]>>::try_from(value.as_slice())
    }
}

impl<const BYTES_OG: usize, const BYTES_DST: usize> vstd::std_specs::convert::TryFromSpecImpl<[u8; BYTES_OG]> for BCD<BYTES_DST> {
    open spec fn obeys_try_from_spec() -> bool {
        false
    }

    open spec fn try_from_spec(v: [u8; BYTES_OG]) -> Result<Self, Self::Error> {
        arbitrary()
    }
}

impl<const BYTES_OG: usize, const BYTES_DST: usize> From<BCD<BYTES_OG>> for [u8; BYTES_DST] {
    /// The bytes brought to `BYTES_DST`, dropping leading bytes or putting
    /// zero bytes in front.
    fn from(data: BCD<BYTES_OG>) -> (r: [u8; BYTES_DST])
        ensures
            r@ == resized(data@, BYTES_DST as nat),
    {
        to_array(&resize_bytes(data.data.as_slice(), BYTES_DST))
    }
}

impl<const BYTES_OG: usize, const BYTES_DST: usize> vstd::std_specs::convert::FromSpecImpl<BCD<BYTES_OG>> for [u8; BYTES_DST] {
    open spec fn obeys_from_spec() -> bool {
        false
    }

    open spec fn from_spec(v: BCD<BYTES_OG>) -> [u8; BYTES_DST] {
        arbitrary()
    }
}

impl<const BYTES: usize> From<BCD<BYTES>> for Vec<u8> {
    /// The bytes, most significant first.
    fn from(data: BCD<BYTES>) -> (r: Vec<u8>)
        ensures
            r@ == data@,
    {
        copy_bytes(data.data.as_slice())
    }
}

impl<const BYTES: usize> vstd::std_specs::convert::FromSpecImpl<BCD<BYTES>> for Vec<u8> {
    open spec fn obeys_from_spec() -> bool {
        false
    }

    open spec fn from_spec(v: BCD<BYTES>) -> Vec<u8> {
        arbitrary()
    }
}

/// A packed-BCD number of as many bytes as it was given, most significant first.
#[derive(Debug)]
pub struct DynBCD {
    data: Vec<u8>,
}

impl DynBCD {
    #[verifier::type_invariant]
    spec fn well_formed(self) -> bool {
        is_valid_bcd(self.data@)
    }

    /// Encodes `value` in as few bytes as hold it, at least one. Fails with
    /// an overflow when it exceeds `10^(2 * width) - 1`, the largest value
    /// of its type (of `width` bytes); `source` names that type.
    fn from_integer(value: u128, width: usize, source: &str) -> (r: Result<Self, BCDConversionError>)
        ensures
            r is Ok <==> value <= max_value(width as nat),
            r matches Ok(d) ==> d@ == encoding(value as nat, min_pairs(value as nat)),
            r matches Err(e) ==> e.spec_kind() == (BCDErrorKind::Overflow {
                input_value: value,
                max_allowed: max_value(width as nat) as u128,
            }),
    {
        match encode_minimal(value, width, source) {
            Ok(bytes) => {
                proof {
                    lemma_min_pairs(value as nat);
                    lemma_round_trip(value as nat, min_pairs(value as nat));
                }
                Ok(DynBCD { data: bytes })
            },
            Err(e) => Err(e),
        }
    }

    /// Encodes `value` in as few bytes as hold it, at least one. Fails with
    /// an overflow when it exceeds `10^32 - 1`, the largest value of 16 bytes.
    pub fn new(value: u128) -> (r: Result<Self, BCDConversionError>)
        ensures
            r is Ok <==> value <= max_value(16),
            r matches Ok(d) ==> d@ == encoding(value as nat, min_pairs(value as nat)),
            r matches Err(e) ==> e.spec_kind() == (BCDErrorKind::Overflow {
                input_value: value,
                max_allowed: max_value(16) as u128,
            }),
    {
        Self::from_integer(value, 16, "u128")
    }

    /// The number held, read from the last 16 bytes at most (those a `u128`
    /// holds): with more bytes the leading ones are not read.
    pub fn get_number(&self) -> (v: u128)
        ensures
            v == bcd_value(trailing(self@, 16)),
    {
        proof {
            use_type_invariant(self);
            lemma_valid_trailing(self.data@, 16);
        }
        decode_valid(self.data.as_slice(), 16)
    }
}

impl View for DynBCD {
    type V = Seq<u8>;

    closed spec fn view(&self) -> Seq<u8> {
        self.data@
    }
}

impl Clone for DynBCD {
    fn clone(&self) -> (r: DynBCD)
        ensures
            r@ == self@,
    {
        proof {
            use_type_invariant(self);
        }
        DynBCD { data: copy_bytes(self.data.as_slice()) }
    }
}

impl PartialEq for DynBCD {
    fn eq(&self, other: &DynBCD) -> (r: bool)
        ensures
            r == (self@ == other@),
    {
        let n = self.data.len();
        if n != other.data.len() {
            return false;
        }
        let mut i: usize = 0;
        while i < n
            invariant
                i <= n,
                n == self.data@.len(),
                n == other.data@.len(),
                forall|j: int| 0 <= j < i ==> self.data@[j] == other.data@[j],
            decreases n - i,
        {
            if self.data[i] != other.data[i] {
                return false;
            }
            i = i + 1;
        }
        assert(self.data@ =~= other.data@);
        true
    }
}

impl vstd::std_specs::cmp::PartialEqSpecImpl for DynBCD {
    open spec fn obeys_eq_spec() -> bool {
        true
    }

    open spec fn eq_spec(&self, other: &DynBCD) -> bool {
        self@ == other@
    }
}

impl TryFrom<&[u8]> for DynBCD {
    type Error = BCDConversionError;

    /// Fails when a byte is not valid packed BCD; otherwise exactly the bytes given.
    fn try_from(value: &[u8]) -> (r: Result<Self, Self::Error>)
        ensures
            r is Ok <==> is_valid_bcd(value@),
            r matches Ok(d) ==> d@ == value@,
            r matches Err(e) ==> e.spec_kind() == BCDErrorKind::InvalidFormat,
    {
        if check_invalid_bytes(value) {
            return Err(invalid_format());
        }
        Ok(DynBCD { data: copy_bytes(value) })
    }
}

impl vstd::std_specs::convert::TryFromSpecImpl<&[u8]> for DynBCD {
    open spec fn obeys_try_from_spec() -> bool {
        false
    }

    open spec fn try_from_spec(v: &[u8]) -> Result<Self, Self::Error> {
        arbitrary()
    }
}

impl<const BYTES: usize> From<DynBCD> for BCD<BYTES> {
    /// The bytes brought to `BYTES`, dropping leading bytes or putting zero
    /// bytes in front.
    fn from(value: DynBCD) -> (r: BCD<BYTES>)
        ensures
            r@ == resized(value@, BYTES as nat),
    {
        proof {
            use_type_invariant(&value);
            lemma_resized_shape(value.data@, BYTES as nat);
        }
        BCD::from_valid(&resize_bytes(value.data.as_slice(), BYTES))
    }
}

impl<const BYTES: usize> vstd::std_specs::convert::FromSpecImpl<DynBCD> for BCD<BYTES> {
    open spec fn obeys_from_spec() -> bool {
        false
    }

    open spec fn from_spec(v: DynBCD) -> BCD<BYTES> {
        arbitrary()
    }
}

impl<const BYTES: usize> From<BCD<BYTES>> for DynBCD {
    /// The same bytes.
    fn from(value: BCD<BYTES>) -> (r: DynBCD)
        ensures
            r@ == value@,
    {
        proof {
            use_type_invariant(&value);
        }
        DynBCD { data: copy_bytes(value.data.as_slice()) }
    }
}

impl<const BYTES: usize> vstd::std_specs::convert::FromSpecImpl<BCD<BYTES>> for DynBCD {
    open spec fn obeys_from_spec() -> bool {
        false
    }

    open spec fn from_spec(v: BCD<BYTES>) -> DynBCD {
        arbitrary()
    }
}

impl IntoIterator for DynBCD {
    type Item = u8;

    type IntoIter = std::vec::IntoIter<u8>;

    /// The bytes, most significant first.
    fn into_iter(self) -> (it: std::vec::IntoIter<u8>)
        ensures
            it.remaining() == self@,
    {
        self.data.into_iter()
    }
}

impl<const BYTES: usize> IntoIterator for BCD<BYTES> {
    type Item = u8;

    type IntoIter = std::vec::IntoIter<u8>;

    /// The bytes, most significant first.
    fn into_iter(self) -> (it: std::vec::IntoIter<u8>)
        ensures
            it.remaining() == self@,
    {
        copy_bytes(self.data.as_slice()).into_iter()
    }
}

impl From<DynBCD> for Vec<u8> {
    /// The bytes, most significant first.
    fn from(data: DynBCD) -> (r: Vec<u8>)
        ensures
            r@ == data@,
    {
        data.data
    }
}

impl vstd::std_specs::convert::FromSpecImpl<DynBCD> for Vec<u8> {
    open spec fn obeys_from_spec() -> bool {
        false
    }

    open spec fn from_spec(v: DynBCD) -> Vec<u8> {
        arbitrary()
    }
}

impl TryFrom<u8> for BCD<1> {
    type Error = BCDConversionError;

    /// Encodes `value` in 1 byte. Fails with an overflow when it exceeds
    /// `10^2 - 1`.
    fn try_from(value: u8) -> (r: Result<Self, Self::Error>)
        ensures
            r is Ok <==> value <= max_value(1),
            r matches Ok(b) ==> b@ == encoding(value as nat, 1),
            r matches Err(e) ==> e.spec_kind() == (BCDErrorKind::Overflow {
                input_value: value as u128,
                max_allowed: max_value(1) as u128,
            }),
    {
        Self::from_integer(value as u128, "u8")
    }
}

impl vstd::std_specs::convert::TryFromSpecImpl<u8> for BCD<1> {
    open spec fn obeys_try_from_spec() -> bool {
        false
    }

    open spec fn try_from_spec(v: u8) -> Result<Self, Self::Error> {
        arbitrary()
    }
}

impl From<BCD<1>> for u8 {
    /// The number held.
    fn from(value: BCD<1>) -> (r: u8)
        ensures
            r == bcd_value(value@),
    {
        proof {
            use_type_invariant(&value);
            reveal_with_fuel(pow100, 2);
        }
        decode_valid(value.data.as_slice(), 1) as u8
    }
}

impl vstd::std_specs::convert::FromSpecImpl<BCD<1>> for u8 {
    open spec fn obeys_from_spec() -> bool {
        true
    }

    open spec fn from_spec(v: BCD<1>) -> u8 {
        bcd_value(v@) as u8
    }
}

impl TryFrom<u8> for DynBCD {
    type Error = BCDConversionError;

    /// Encodes `value` in as few bytes as hold it, at least one. Fails with
    /// an overflow when it exceeds `10^2 - 1`.
    fn try_from(value: u8) -> (r: Result<Self, Self::Error>)
        ensures
            r is Ok <==> value <= max_value(1),
            r matches Ok(d) ==> d@ == encoding(value as nat, min_pairs(value as nat)),
            r matches Err(e) ==> e.spec_kind() == (BCDErrorKind::Overflow {
                input_value: value as u128,
                max_allowed: max_value(1) as u128,
            }),
    {
        Self::from_integer(value as u128, 1, "u8")
    }
}

impl vstd::std_specs::convert::TryFromSpecImpl<u8> for DynBCD {
    open spec fn obeys_try_from_spec() -> bool {
        false
    }

    open spec fn try_from_spec(v: u8) -> Result<Self, Self::Error> {
        arbitrary()
    }
}

impl From<DynBCD> for u8 {
    /// The number held in the last 1 byte (all of them when there are no
    /// more): the leading bytes are not read.
    fn from(value: DynBCD) -> (r: u8)
        ensures
            r == bcd_value(trailing(value@, 1)),
    {
        proof {
            use_type_invariant(&value);
            lemma_valid_trailing(value.data@, 1);
            reveal_with_fuel(pow100, 2);
        }
        decode_valid(value.data.as_slice(), 1) as u8
    }
}

impl vstd::std_specs::convert::FromSpecImpl<DynBCD> for u8 {
    open spec fn obeys_from_spec() -> bool {
        true
    }

    open spec fn from_spec(v: DynBCD) -> u8 {
        bcd_value(trailing(v@, 1)) as u8
    }
}

impl TryFrom<u16> for BCD<2> {
    type Error = BCDConversionError;

    /// Encodes `value` in 2 bytes. Fails with an overflow when it exceeds
    /// `10^4 - 1`.
    fn try_from(value: u16) -> (r: Result<Self, Self::Error>)
        ensures
            r is Ok <==> value <= max_value(2),
            r matches Ok(b) ==> b@ == encoding(value as nat, 2),
            r matches Err(e) ==> e.spec_kind() == (BCDErrorKind::Overflow {
                input_value: value as u128,
                max_allowed: max_value(2) as u128,
            }),
    {
        Self::from_integer(value as u128, "u16")
    }
}

impl vstd::std_specs::convert::TryFromSpecImpl<u16> for BCD<2> {
    open spec fn obeys_try_from_spec() -> bool {
        false
    }

    open spec fn try_from_spec(v: u16) -> Result<Self, Self::Error> {
        arbitrary()
    }
}

impl From<BCD<2>> for u16 {
    /// The number held.
    fn from(value: BCD<2>) -> (r: u16)
        ensures
            r == bcd_value(value@),
    {
        proof {
            use_type_invariant(&value);
            reveal_with_fuel(pow100, 3);
        }
        decode_valid(value.data.as_slice(), 2) as u16
    }
}

impl vstd::std_specs::convert::FromSpecImpl<BCD<2>> for u16 {
    open spec fn obeys_from_spec() -> bool {
        true
    }

    open spec fn from_spec(v: BCD<2>) -> u16 {
        bcd_value(v@) as u16
    }
}

impl TryFrom<u16> for DynBCD {
    type Error = BCDConversionError;

    /// Encodes `value` in as few bytes as hold it, at least one. Fails with
    /// an overflow when it exceeds `10^4 - 1`.
    fn try_from(value: u16) -> (r: Result<Self, Self::Error>)
        ensures
            r is Ok <==> value <= max_value(2),
            r matches Ok(d) ==> d@ == encoding(value as nat, min_pairs(value as nat)),
            r matches Err(e) ==> e.spec_kind() == (BCDErrorKind::Overflow {
                input_value: value as u128,
                max_allowed: max_value(2) as u128,
            }),
    {
        Self::from_integer(value as u128, 2, "u16")
    }
}

impl vstd::std_specs::convert::TryFromSpecImpl<u16> for DynBCD {
    open spec fn obeys_try_from_spec() -> bool {
        false
    }

    open spec fn try_from_spec(v: u16) -> Result<Self, Self::Error> {
        arbitrary()
    }
}

impl From<DynBCD> for u16 {
    /// The number held in the last 2 bytes (all of them when there are no
    /// more): the leading bytes are not read.
    fn from(value: DynBCD) -> (r: u16)
        ensures
            r == bcd_value(trailing(value@, 2)),
    {
        proof {
            use_type_invariant(&value);
            lemma_valid_trailing(value.data@, 2);
            reveal_with_fuel(pow100, 3);
        }
        decode_valid(value.data.as_slice(), 2) as u16
    }
}

impl vstd::std_specs::convert::FromSpecImpl<DynBCD> for u16 {
    open spec fn obeys_from_spec() -> bool {
        true
    }

    open spec fn from_spec(v: DynBCD) -> u16 {
        bcd_value(trailing(v@, 2)) as u16
    }
}

impl TryFrom<u32> for BCD<4> {
    type Error = BCDConversionError;

    /// Encodes `value` in 4 bytes. Fails with an overflow when it exceeds
    /// `10^8 - 1`.
    fn try_from(value: u32) -> (r: Result<Self, Self::Error>)
        ensures
            r is Ok <==> value <= max_value(4),
            r matches Ok(b) ==> b@ == encoding(value as nat, 4),
            r matches Err(e) ==> e.spec_kind() == (BCDErrorKind::Overflow {
                input_value: value as u128,
                max_allowed: max_value(4) as u128,
            }),
    {
        Self::from_integer(value as u128, "u32")
    }
}

impl vstd::std_specs::convert::TryFromSpecImpl<u32> for BCD<4> {
    open spec fn obeys_try_from_spec() -> bool {
        false
    }

    open spec fn try_from_spec(v: u32) -> Result<Self, Self::Error> {
        arbitrary()
    }
}

impl From<BCD<4>> for u32 {
    /// The number held.
    fn from(value: BCD<4>) -> (r: u32)
        ensures
            r == bcd_value(value@),
    {
        proof {
            use_type_invariant(&value);
            reveal_with_fuel(pow100, 5);
        }
        decode_valid(value.data.as_slice(), 4) as u32
    }
}

impl vstd::std_specs::convert::FromSpecImpl<BCD<4>> for u32 {
    open spec fn obeys_from_spec() -> bool {
        true
    }

    open spec fn from_spec(v: BCD<4>) -> u32 {
        bcd_value(v@) as u32
    }
}

impl TryFrom<u32> for DynBCD {
    type Error = BCDConversionError;

    /// Encodes `value` in as few bytes as hold it, at least one. Fails with
    /// an overflow when it exceeds `10^8 - 1`.
    fn try_from(value: u32) -> (r: Result<Self, Self::Error>)
        ensures
            r is Ok <==> value <= max_value(4),
            r matches Ok(d) ==> d@ == encoding(value as nat, min_pairs(value as nat)),
            r matches Err(e) ==> e.spec_kind() == (BCDErrorKind::Overflow {
                input_value: value as u128,
                max_allowed: max_value(4) as u128,
            }),
    {
        Self::from_integer(value as u128, 4, "u32")
    }
}

impl vstd::std_specs::convert::TryFromSpecImpl<u32> for DynBCD {
    open spec fn obeys_try_from_spec() -> bool {
        false
    }

    open spec fn try_from_spec(v: u32) -> Result<Self, Self::Error> {
        arbitrary()
    }
}

impl From<DynBCD> for u32 {
    /// The number held in the last 4 bytes (all of them when there are no
    /// more): the leading bytes are not read.
    fn from(value: DynBCD) -> (r: u32)
        ensures
            r == bcd_value(trailing(value@, 4)),
    {
        proof {
            use_type_invariant(&value);
            lemma_valid_trailing(value.data@, 4);
            reveal_with_fuel(pow100, 5);
        }
        decode_valid(value.data.as_slice(), 4) as u32
    }
}

impl vstd::std_specs::convert::FromSpecImpl<DynBCD> for u32 {
    open spec fn obeys_from_spec() -> bool {
        true
    }

    open spec fn from_spec(v: DynBCD) -> u32 {
        bcd_value(trailing(v@, 4)) as u32
    }
}

impl TryFrom<u64> for BCD<8> {
    type Error = BCDConversionError;

    /// Encodes `value` in 8 bytes. Fails with an overflow when it exceeds
    /// `10^16 - 1`.
    fn try_from(value: u64) -> (r: Result<Self, Self::Error>)
        ensures
            r is Ok <==> value <= max_value(8),
            r matches Ok(b) ==> b@ == encoding(value as nat, 8),
            r matches Err(e) ==> e.spec_kind() == (BCDErrorKind::Overflow {
                input_value: value as u128,
                max_allowed: max_value(8) as u128,
            }),
    {
        Self::from_integer(value as u128, "u64")
    }
}

impl vstd::std_specs::convert::TryFromSpecImpl<u64> for BCD<8> {
    open spec fn obeys_try_from_spec() -> bool {
        false
    }

    open spec fn try_from_spec(v: u64) -> Result<Self, Self::Error> {
        arbitrary()
    }
}

impl From<BCD<8>> for u64 {
    /// The number held.
    fn from(value: BCD<8>) -> (r: u64)
        ensures
            r == bcd_value(value@),
    {
        proof {
            use_type_invariant(&value);
            reveal_with_fuel(pow100, 9);
        }
        decode_valid(value.data.as_slice(), 8) as u64
    }
}

impl vstd::std_specs::convert::FromSpecImpl<BCD<8>> for u64 {
    open spec fn obeys_from_spec() -> bool {
        true
    }

    open spec fn from_spec(v: BCD<8>) -> u64 {
        bcd_value(v@) as u64
    }
}

impl TryFrom<u64> for DynBCD {
    type Error = BCDConversionError;

    /// Encodes `value` in as few bytes as hold it, at least one. Fails with
    /// an overflow when it exceeds `10^16 - 1`.
    fn try_from(value: u64) -> (r: Result<Self, Self::Error>)
        ensures
            r is Ok <==> value <= max_value(8),
            r matches Ok(d) ==> d@ == encoding(value as nat, min_pairs(value as nat)),
            r matches Err(e) ==> e.spec_kind() == (BCDErrorKind::Overflow {
                input_value: value as u128,
                max_allowed: max_value(8) as u128,
            }),
    {
        Self::from_integer(value as u128, 8, "u64")
    }
}

impl vstd::std_specs::convert::TryFromSpecImpl<u64> for DynBCD {
    open spec fn obeys_try_from_spec() -> bool {
        false
    }

    open spec fn try_from_spec(v: u64) -> Result<Self, Self::Error> {
        arbitrary()
    }
}

impl From<DynBCD> for u64 {
    /// The number held in the last 8 bytes (all of them when there are no
    /// more): the leading bytes are not read.
    fn from(value: DynBCD) -> (r: u64)
        ensures
            r == bcd_value(trailing(value@, 8)),
    {
        proof {
            use_type_invariant(&value);
            lemma_valid_trailing(value.data@, 8);
            reveal_with_fuel(pow100, 9);
        }
        decode_valid(value.data.as_slice(), 8) as u64
    }
}

impl vstd::std_specs::convert::FromSpecImpl<DynBCD> for u64 {
    open spec fn obeys_from_spec() -> bool {
        true
    }

    open spec fn from_spec(v: DynBCD) -> u64 {
        bcd_value(trailing(v@, 8)) as u64
    }
}

impl TryFrom<u128> for BCD<16> {
    type Error = BCDConversionError;

    /// Encodes `value` in 16 bytes. Fails with an overflow when it exceeds
    /// `10^32 - 1`.
    fn try_from(value: u128) -> (r: Result<Self, Self::Error>)
        ensures
            r is Ok <==> value <= max_value(16),
            r matches Ok(b) ==> b@ == encoding(value as nat, 16),
            r matches Err(e) ==> e.spec_kind() == (BCDErrorKind::Overflow {
                input_value: value as u128,
                max_allowed: max_value(16) as u128,
            }),
    {
        Self::from_integer(value as u128, "u128")
    }
}

impl vstd::std_specs::convert::TryFromSpecImpl<u128> for BCD<16> {
    open spec fn obeys_try_from_spec() -> bool {
        false
    }

    open spec fn try_from_spec(v: u128) -> Result<Self, Self::Error> {
        arbitrary()
    }
}

impl From<BCD<16>> for u128 {
    /// The number held.
    fn from(value: BCD<16>) -> (r: u128)
        ensures
            r == bcd_value(value@),
    {
        proof {
            use_type_invariant(&value);
            reveal_with_fuel(pow100, 17);
        }
        decode_valid(value.data.as_slice(), 16) as u128
    }
}

impl vstd::std_specs::convert::FromSpecImpl<BCD<16>> for u128 {
    open spec fn obeys_from_spec() -> bool {
        true
    }

    open spec fn from_spec(v: BCD<16>) -> u128 {
        bcd_value(v@) as u128
    }
}

impl TryFrom<u128> for DynBCD {
    type Error = BCDConversionError;

    /// Encodes `value` in as few bytes as hold it, at least one. Fails with
    /// an overflow when it exceeds `10^32 - 1`.
    fn try_from(value: u128) -> (r: Result<Self, Self::Error>)
        ensures
            r is Ok <==> value <= max_value(16),
            r matches Ok(d) ==> d@ == encoding(value as nat, min_pairs(value as nat)),
            r matches Err(e) ==> e.spec_kind() == (BCDErrorKind::Overflow {
                input_value: value as u128,
                max_allowed: max_value(16) as u128,
            }),
    {
        Self::from_integer(value as u128, 16, "u128")
    }
}

impl vstd::std_specs::convert::TryFromSpecImpl<u128> for DynBCD {
    open spec fn obeys_try_from_spec() -> bool {
        false
    }

    open spec fn try_from_spec(v: u128) -> Result<Self, Self::Error> {
        arbitrary()
    }
}

impl From<DynBCD> for u128 {
    /// The number held in the last 16 bytes (all of them when there are no
    /// more): the leading bytes are not read.
    fn from(value: DynBCD) -> (r: u128)
        ensures
            r == bcd_value(trailing(value@, 16)),
    {
        proof {
            use_type_invariant(&value);
            lemma_valid_trailing(value.data@, 16);
            reveal_with_fuel(pow100, 17);
        }
        decode_valid(value.data.as_slice(), 16) as u128
    }
}

impl vstd::std_specs::convert::FromSpecImpl<DynBCD> for u128 {
    open spec fn obeys_from_spec() -> bool {
        true
    }

    open spec fn from_spec(v: DynBCD) -> u128 {
        bcd_value(trailing(v@, 16)) as u128
    }
}

} // verus!
