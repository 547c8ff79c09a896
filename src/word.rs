//! Packed BCD held in an unsigned integer: the integer's bytes, most
//! significant first, are the packed-BCD bytes (`1234` packs to `0x1234`).
use vstd::prelude::*;

use crate::codec::{bcd_value, decode, encode, encoding, is_valid_bcd, max_value, pow100, trailing};
use crate::error::{BCDConversionError, BCDErrorKind};

verus! {

/// Two hundred fifty-six to the power `n`.
pub open spec fn pow256(n: nat) -> nat
    decreases n,
{
    if n == 0 {
        1
    } else {
        256 * pow256((n - 1) as nat)
    }
}

/// The number whose big-endian bytes are `s`.
pub open spec fn be_value(s: Seq<u8>) -> nat
    decreases s.len(),
{
    if s.len() == 0 {
        0
    } else {
        be_value(s.drop_last()) * 256 + s.last() as nat
    }
}

/// The `n` lowest bytes of `x`, most significant first.
pub open spec fn be_bytes(x: nat, n: nat) -> Seq<u8>
    decreases n,
{
    if n == 0 {
        seq![]
    } else {
        be_bytes(x / 256, (n - 1) as nat).push((x % 256) as u8)
    }
}

/// `n` big-endian bytes stand for a number below `256^n`.
pub proof fn lemma_be_value_bound(s: Seq<u8>)
    ensures
        be_value(s) < pow256(s.len()),
    decreases s.len(),
{
    if s.len() > 0 {
        lemma_be_value_bound(s.drop_last());
    }
}

/// `be_bytes(x, n)` has `n` bytes.
pub proof fn lemma_be_bytes_len(x: nat, n: nat)
    ensures
        be_bytes(x, n).len() == n,
    decreases n,
{
    if n > 0 {
        lemma_be_bytes_len(x / 256, (n - 1) as nat);
    }
}

/// The number whose big-endian bytes are `bytes`, at most 16 of them.
fn be_fold(bytes: &Vec<u8>) -> (r: u128)
    requires
        bytes@.len() <= 16,
    ensures
        r == be_value(bytes@),
{
    let mut acc: u128 = 0;
    let mut i: usize = 0;
    proof {
        assert(bytes@.subrange(0, 0) =~= seq![]);
        reveal_with_fuel(pow256, 17);
    }
    while i < bytes.len()
        invariant
            i <= bytes@.len() <= 16,
            acc == be_value(bytes@.subrange(0, i as int)),
            pow256(16) == u128::MAX + 1,
        decreases bytes@.len() - i,
    {
        let ghost after = bytes@.subrange(0, i + 1);
        proof {
            assert(after.drop_last() =~= bytes@.subrange(0, i as int));
            lemma_be_value_bound(after);
            lemma_pow256_monotonic(after.len(), 16);
        }
        acc = acc * 256 + bytes[i] as u128;
        i = i + 1;
    }
    assert(bytes@.subrange(0, i as int) =~= bytes@);
    acc
}

/// Powers of two hundred fifty-six grow with the exponent.
proof fn lemma_pow256_monotonic(a: nat, b: nat)
    requires
        a <= b,
    ensures
        pow256(a) <= pow256(b),
    decreases b,
{
    if a < b {
        lemma_pow256_monotonic(a, (b - 1) as nat);
    }
}

/// The `n` lowest bytes of `x`, most significant first.
fn be_bytes_of(x: u128, n: usize) -> (r: Vec<u8>)
    ensures
        r@ == be_bytes(x as nat, n as nat),
    decreases n,
{
    if n == 0 {
        Vec::new()
    } else {
        let mut r = be_bytes_of(x / 256, n - 1);
        r.push((x % 256) as u8);
        r
    }
}

/// Packs an integer's decimal digits into its own bytes.
pub trait ToBCD: Sized {
    /// The number of bytes of the type.
    spec fn width() -> nat;

    /// The number a value stands for.
    spec fn number(self) -> nat;

    /// The value packed: its `width()` lowest digit pairs as big-endian
    /// packed-BCD bytes. Fails with an overflow when it exceeds
    /// `10^(2 * width()) - 1`.
    fn to_bcd(self) -> (r: Result<Self, BCDConversionError>)
        ensures
            r is Ok <==> self.number() <= max_value(Self::width()),
            r matches Ok(p) ==> p.number() == be_value(encoding(self.number(), Self::width())),
            r matches Err(e) ==> e.spec_kind() == (BCDErrorKind::Overflow {
                input_value: self.number() as u128,
                max_allowed: max_value(Self::width()) as u128,
            }),
    ;
}

/// Reads an integer's bytes as packed BCD.
pub trait FromBCD: ToBCD {
    /// The number that the value's bytes, read as packed BCD, stand for.
    /// Fails when one of its bytes has a nibble outside `[0, 9]`.
    fn from_bcd(self) -> (r: Result<Self, BCDConversionError>)
        ensures
            r is Ok <==> is_valid_bcd(be_bytes(self.number(), Self::width())),
            r matches Ok(v) ==> v.number() == bcd_value(be_bytes(self.number(), Self::width())),
            r matches Err(e) ==> e.spec_kind() == BCDErrorKind::InvalidFormat,
    ;
}

/// Packs `value` into `width` bytes read as one big-endian integer.
fn pack_word(value: u128, width: usize, source: &str) -> (r: Result<u128, BCDConversionError>)
    requires
        width <= 16,
    ensures
        r is Ok <==> value <= max_value(width as nat),
        r matches Ok(p) ==> p == be_value(encoding(value as nat, width as nat)),
        r matches Ok(p) ==> p < pow256(width as nat),
        r matches Err(e) ==> e.spec_kind() == (BCDErrorKind::Overflow {
            input_value: value,
            max_allowed: max_value(width as nat) as u128,
        }),
{
    match encode(value, width, source) {
        Ok(bytes) => {
            proof {
                crate::codec::lemma_encoding_shape(value as nat, width as nat);
                lemma_be_value_bound(bytes@);
            }
            Ok(be_fold(&bytes))
        },
        Err(e) => Err(e),
    }
}

/// Reads the `width` lowest bytes of `word` as packed BCD.
fn unpack_word(word: u128, width: usize) -> (r: Result<u128, BCDConversionError>)
    requires
        width <= 16,
    ensures
        r is Ok <==> is_valid_bcd(be_bytes(word as nat, width as nat)),
        r matches Ok(v) ==> v == bcd_value(be_bytes(word as nat, width as nat)),
        r matches Ok(v) ==> v < pow100(width as nat),
        r matches Err(e) ==> e.spec_kind() == BCDErrorKind::InvalidFormat,
{
    let bytes = be_bytes_of(word, width);
    proof {
        lemma_be_bytes_len(word as nat, width as nat);
        assert(trailing(bytes@, width as nat) == bytes@);
    }
    decode(bytes.as_slice(), width)
}

impl ToBCD for u8 {
    open spec fn width() -> nat {
        1
    }

    open spec fn number(self) -> nat {
        self as nat
    }

    fn to_bcd(self) -> (r: Result<u8, BCDConversionError>) {
        match pack_word(self as u128, 1, "u8") {
            Ok(p) => {
                proof {
                    reveal_with_fuel(pow256, 2);
                }
                Ok(p as u8)
            },
            Err(e) => Err(e),
        }
    }
}

impl FromBCD for u8 {
    fn from_bcd(self) -> (r: Result<u8, BCDConversionError>) {
        match unpack_word(self as u128, 1) {
            Ok(v) => {
                proof {
                    reveal_with_fuel(pow100, 2);
                }
                Ok(v as u8)
            },
            Err(e) => Err(e),
        }
    }
}

impl ToBCD for u16 {
    open spec fn width() -> nat {
        2
    }

    open spec fn number(self) -> nat {
        self as nat
    }

    fn to_bcd(self) -> (r: Result<u16, BCDConversionError>) {
        match pack_word(self as u128, 2, "u16") {
            Ok(p) => {
                proof {
                    reveal_with_fuel(pow256, 3);
                }
                Ok(p as u16)
            },
            Err(e) => Err(e),
        }
    }
}

impl FromBCD for u16 {
    fn from_bcd(self) -> (r: Result<u16, BCDConversionError>) {
        match unpack_word(self as u128, 2) {
            Ok(v) => {
                proof {
                    reveal_with_fuel(pow100, 3);
                }
                Ok(v as u16)
            },
            Err(e) => Err(e),
        }
    }
}

impl ToBCD for u32 {
    open spec fn width() -> nat {
        4
    }

    open spec fn number(self) -> nat {
        self as nat
    }

    fn to_bcd(self) -> (r: Result<u32, BCDConversionError>) {
        match pack_word(self as u128, 4, "u32") {
            Ok(p) => {
                proof {
                    reveal_with_fuel(pow256, 5);
                }
                Ok(p as u32)
            },
            Err(e) => Err(e),
        }
    }
}

impl FromBCD for u32 {
    fn from_bcd(self) -> (r: Result<u32, BCDConversionError>) {
        match unpack_word(self as u128, 4) {
            Ok(v) => {
                proof {
                    reveal_with_fuel(pow100, 5);
                }
                Ok(v as u32)
            },
            Err(e) => Err(e),
        }
    }
}

impl ToBCD for u64 {
    open spec fn width() -> nat {
        8
    }

    open spec fn number(self) -> nat {
        self as nat
    }

    fn to_bcd(self) -> (r: Result<u64, BCDConversionError>) {
        match pack_word(self as u128, 8, "u64") {
            Ok(p) => {
                proof {
                    reveal_with_fuel(pow256, 9);
                }
                Ok(p as u64)
            },
            Err(e) => Err(e),
        }
    }
}

impl FromBCD for u64 {
    fn from_bcd(self) -> (r: Result<u64, BCDConversionError>) {
        match unpack_word(self as u128, 8) {
            Ok(v) => {
                proof {
                    reveal_with_fuel(pow100, 9);
                }
                Ok(v as u64)
            },
            Err(e) => Err(e),
        }
    }
}

impl ToBCD for u128 {
    open spec fn width() -> nat {
        16
    }

    open spec fn number(self) -> nat {
        self as nat
    }

    fn to_bcd(self) -> (r: Result<u128, BCDConversionError>) {
        match pack_word(self as u128, 16, "u128") {
            Ok(p) => {
                proof {
                    reveal_with_fuel(pow256, 17);
                }
                Ok(p as u128)
            },
            Err(e) => Err(e),
        }
    }
}

impl FromBCD for u128 {
    fn from_bcd(self) -> (r: Result<u128, BCDConversionError>) {
        match unpack_word(self as u128, 16) {
            Ok(v) => {
                proof {
                    reveal_with_fuel(pow100, 17);
                }
                Ok(v as u128)
            },
            Err(e) => Err(e),
        }
    }
}

} // verus!
