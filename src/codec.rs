//! Integers to and from big-endian packed-BCD byte sequences of a given length.
use vstd::prelude::*;
use vstd::arithmetic::div_mod::{lemma_div_denominator, lemma_mod_breakdown};

use crate::digits::{
    byte_to_pair, byte_value, high_nibble, is_valid_byte, low_nibble, pair_byte, pair_to_byte,
    validate,
};
use crate::error::{BCDConversionError, BCDErrorKind};

verus! {

/// One hundred to the power `n`: one past the largest value that `n` bytes hold.
pub open spec fn pow100(n: nat) -> nat
    decreases n,
{
    if n == 0 {
        1
    } else {
        100 * pow100((n - 1) as nat)
    }
}

/// The largest value that `n` bytes of packed BCD represent: `10^(2n) - 1`.
pub open spec fn max_value(n: nat) -> int {
    pow100(n) - 1
}

/// Every byte of `s` is valid packed BCD.
pub open spec fn is_valid_bcd(s: Seq<u8>) -> bool {
    forall|i: int| 0 <= i < s.len() ==> is_valid_byte(#[trigger] s[i])
}

/// The number that a big-endian packed-BCD sequence stands for.
pub open spec fn bcd_value(s: Seq<u8>) -> nat
    decreases s.len(),
{
    if s.len() == 0 {
        0
    } else {
        bcd_value(s.drop_last()) * 100 + byte_value(s.last())
    }
}

/// The `n` lowest digit pairs of `v` as big-endian packed BCD.
pub open spec fn encoding(v: nat, n: nat) -> Seq<u8>
    decreases n,
{
    if n == 0 {
        seq![]
    } else {
        encoding(v / 100, (n - 1) as nat).push(pair_byte(v % 100))
    }
}

/// `k` zero bytes.
pub open spec fn zeros(k: nat) -> Seq<u8> {
    Seq::new(k, |_i: int| 0u8)
}

/// `s` brought to `n` bytes: the leading (most significant) bytes are dropped
/// when it is longer, zero bytes are put in front when it is shorter.
pub open spec fn resized(s: Seq<u8>, n: nat) -> Seq<u8> {
    if s.len() >= n {
        s.subrange(s.len() - n, s.len() as int)
    } else {
        zeros((n - s.len()) as nat) + s
    }
}

/// The last `n` bytes of `s`, or all of it when it is no longer.
pub open spec fn trailing(s: Seq<u8>, n: nat) -> Seq<u8> {
    if s.len() <= n {
        s
    } else {
        s.subrange(s.len() - n, s.len() as int)
    }
}

/// The fewest bytes that hold `v`, and at least one.
pub open spec fn min_pairs(v: nat) -> nat
    decreases v,
{
    if v < 100 {
        1
    } else {
        1 + min_pairs(v / 100)
    }
}

/// Powers of one hundred are positive.
pub proof fn lemma_pow100_positive(n: nat)
    ensures
        pow100(n) >= 1,
    decreases n,
{
    if n > 0 {
        lemma_pow100_positive((n - 1) as nat);
    }
}

/// Powers of one hundred grow with the exponent.
pub proof fn lemma_pow100_monotonic(a: nat, b: nat)
    requires
        a <= b,
    ensures
        pow100(a) <= pow100(b),
    decreases b,
{
    if a < b {
        lemma_pow100_monotonic(a, (b - 1) as nat);
        lemma_pow100_positive((b - 1) as nat);
    }
}

/// A valid sequence of `n` bytes stands for a number below `100^n`.
pub proof fn lemma_bcd_value_bound(s: Seq<u8>)
    requires
        is_valid_bcd(s),
    ensures
        bcd_value(s) < pow100(s.len()),
    decreases s.len(),
{
    if s.len() > 0 {
        let init = s.drop_last();
        assert(is_valid_bcd(init)) by {
            assert forall|i: int| 0 <= i < init.len() implies is_valid_byte(#[trigger] init[i]) by {
                assert(init[i] == s[i]);
            }
        }
        lemma_bcd_value_bound(init);
        assert(is_valid_byte(s[s.len() - 1]));
        assert(byte_value(s.last()) < 100);
    }
}

/// The last bytes of a valid sequence are valid.
pub proof fn lemma_valid_trailing(s: Seq<u8>, n: nat)
    requires
        is_valid_bcd(s),
    ensures
        is_valid_bcd(trailing(s, n)),
{
    let t = trailing(s, n);
    assert forall|i: int| 0 <= i < t.len() implies is_valid_byte(#[trigger] t[i]) by {
        if s.len() > n {
            assert(t[i] == s[s.len() - n + i]);
        }
    }
}

/// The encoding of `n` pairs has `n` valid bytes.
pub proof fn lemma_encoding_shape(v: nat, n: nat)
    ensures
        encoding(v, n).len() == n,
        is_valid_bcd(encoding(v, n)),
    decreases n,
{
    if n > 0 {
        lemma_encoding_shape(v / 100, (n - 1) as nat);
        let e = encoding(v, n);
        let p = (v % 100) as u8;
        assert(is_valid_byte(pair_byte(p as nat)) && byte_value(pair_byte(p as nat)) == p) by (
        bit_vector)
            requires
                p < 100,
        ;
        assert forall|i: int| 0 <= i < e.len() implies is_valid_byte(#[trigger] e[i]) by {
            if i < n - 1 {
                assert(e[i] == encoding(v / 100, (n - 1) as nat)[i]);
            }
        }
    }
}

/// Decoding the `n`-pair encoding of `v` gives `v` modulo `100^n`.
pub proof fn lemma_encoding_value(v: nat, n: nat)
    ensures
        bcd_value(encoding(v, n)) == v % pow100(n),
    decreases n,
{
    if n == 0 {
    } else {
        let e = encoding(v, n);
        let rest = encoding(v / 100, (n - 1) as nat);
        lemma_encoding_value(v / 100, (n - 1) as nat);
        assert(e.drop_last() =~= rest);
        let p = (v % 100) as u8;
        assert(byte_value(pair_byte(p as nat)) == p) by (bit_vector)
            requires
                p < 100,
        ;
        lemma_pow100_positive((n - 1) as nat);
        lemma_mod_breakdown(v as int, 100, pow100((n - 1) as nat) as int);
    }
}

/// The encoding of `i + 1` pairs is the pair at position `i` in front of the
/// encoding of `i` pairs.
pub proof fn lemma_encoding_front(v: nat, i: nat)
    ensures
        encoding(v, i + 1) == seq![pair_byte((v / pow100(i)) % 100)] + encoding(v, i),
    decreases i,
{
    if i == 0 {
        assert(pow100(0) == 1);
        assert(v / 1 == v);
        assert(encoding(v, 0) =~= seq![]);
        assert(encoding(v / 100, 0) =~= seq![]);
        assert(encoding(v, 1) =~= seq![pair_byte((v / pow100(0)) % 100)] + encoding(v, 0));
    } else {
        lemma_encoding_front(v / 100, (i - 1) as nat);
        lemma_pow100_positive((i - 1) as nat);
        lemma_div_denominator(v as int, 100, pow100((i - 1) as nat) as int);
        assert(encoding(v, i + 1) =~= seq![pair_byte((v / pow100(i)) % 100)] + encoding(v, i));
    }
}

/// The largest value that `n` bytes hold, where it fits in a `u128`.
pub fn max_for(n: usize) -> (r: Option<u128>)
    ensures
        r is Some <==> max_value(n as nat) <= u128::MAX,
        r matches Some(m) ==> m == max_value(n as nat),
{
    let mut p: u128 = 1;
    let mut i: usize = 0;
    while i < n
        invariant
            i <= n,
            p == pow100(i as nat),
        decreases n - i,
    {
        if p > u128::MAX / 100 {
            proof {
                lemma_pow100_monotonic((i + 1) as nat, n as nat);
            }
            return None;
        }
        p = p * 100;
        i = i + 1;
    }
    proof {
        lemma_pow100_positive(n as nat);
    }
    Some(p - 1)
}

/// The `n` lowest digit pairs of `value`, big-endian.
pub fn encode_pairs(value: u128, n: usize) -> (r: Vec<u8>)
    ensures
        r@ == encoding(value as nat, n as nat),
{
    let mut out: Vec<u8> = vec![0u8; n];
    let mut x: u128 = value;
    let mut i: usize = 0;
    proof {
        assert(pow100(0) == 1);
        assert(value as nat / 1 == value);
        assert(out@ =~= zeros(n as nat) + encoding(value as nat, 0));
    }
    while i < n
        invariant
            i <= n,
            out@.len() == n,
            x == value as nat / pow100(i as nat),
            out@ == zeros((n - i) as nat) + encoding(value as nat, i as nat),
        decreases n - i,
    {
        let b = pair_to_byte((x % 100) as u8);
        proof {
            lemma_encoding_front(value as nat, i as nat);
            lemma_encoding_shape(value as nat, i as nat);
            lemma_pow100_positive(i as nat);
            lemma_div_denominator(value as int, pow100(i as nat) as int, 100);
        }
        out.set(n - 1 - i, b);
        x = x / 100;
        i = i + 1;
        proof {
            assert(out@ =~= zeros((n - i) as nat) + encoding(value as nat, i as nat));
        }
    }
    proof {
        assert(out@ =~= encoding(value as nat, n as nat));
    }
    out
}

/// Encodes `value` in exactly `n` bytes, big-endian. Fails with an overflow
/// when `value` exceeds `10^(2n) - 1`; `source` names the value's type in
/// the error's description.
pub fn encode(value: u128, n: usize, source: &str) -> (r: Result<Vec<u8>, BCDConversionError>)
    ensures
        r is Ok <==> value <= max_value(n as nat),
        r matches Ok(bytes) ==> bytes@ == encoding(value as nat, n as nat),
        r matches Err(e) ==> e.spec_kind() == (BCDErrorKind::Overflow {
            input_value: value,
            max_allowed: max_value(n as nat) as u128,
        }),
{
    match max_for(n) {
        Some(max) => {
            if value > max {
                return Err(BCDConversionError::new_with_template_description(source, value, max));
            }
        },
        None => {},
    }
    Ok(encode_pairs(value, n))
}

/// Whether a byte has a nibble outside `[0, 9]`.
pub fn check_invalid_byte(val: u8) -> (r: bool)
    ensures
        r == !is_valid_byte(val),
{
    !validate(val)
}

/// Whether some byte of `bytes` has a nibble outside `[0, 9]`.
pub fn check_invalid_bytes(bytes: &[u8]) -> (r: bool)
    ensures
        r == !is_valid_bcd(bytes@),
{
    let mut i: usize = 0;
    while i < bytes.len()
        invariant
            i <= bytes@.len(),
            forall|j: int| 0 <= j < i ==> is_valid_byte(#[trigger] bytes@[j]),
        decreases bytes@.len() - i,
    {
        if check_invalid_byte(bytes[i]) {
            return true;
        }
        i = i + 1;
    }
    false
}

/// The error for a byte sequence that is not valid packed BCD.
pub fn invalid_format() -> (e: BCDConversionError)
    ensures
        e.spec_kind() == BCDErrorKind::InvalidFormat,
{
    BCDConversionError::new("Invalid format, found A-F".to_owned())
}

/// Decodes the last `width` bytes of `bytes` (all of them when there are no
/// more); the bytes before them are not read. Fails when a byte read has a
/// nibble outside `[0, 9]`.
pub fn decode(bytes: &[u8], width: usize) -> (r: Result<u128, BCDConversionError>)
    requires
        width <= 19,
    ensures
        r is Ok <==> is_valid_bcd(trailing(bytes@, width as nat)),
        r matches Ok(v) ==> v == bcd_value(trailing(bytes@, width as nat)),
        r matches Ok(v) ==> v < pow100(width as nat),
        r matches Err(e) ==> e.spec_kind() == BCDErrorKind::InvalidFormat,
{
    let len = bytes.len();
    let start: usize = if len > width { len - width } else { 0 };
    let ghost t = trailing(bytes@, width as nat);
    assert(t =~= bytes@.subrange(start as int, len as int));
    let mut acc: u128 = 0;
    let mut i: usize = start;
    proof {
        assert(bytes@.subrange(start as int, start as int) =~= seq![]);
        lemma_pow100_monotonic(19, 20);
        reveal_with_fuel(pow100, 20);
        assert(pow100(19) == 100000000000000000000000000000000000000nat);
    }
    while i < len
        invariant
            start <= i <= len,
            len == bytes@.len(),
            len - start <= width <= 19,
            t == bytes@.subrange(start as int, len as int),
            t == trailing(bytes@, width as nat),
            is_valid_bcd(bytes@.subrange(start as int, i as int)),
            acc == bcd_value(bytes@.subrange(start as int, i as int)),
            pow100(19) <= u128::MAX,
        decreases len - i,
    {
        let b = bytes[i];
        let ghost before = bytes@.subrange(start as int, i as int);
        let ghost after = bytes@.subrange(start as int, i + 1);
        if !validate(b) {
            proof {
                assert(t[i - start] == b);
                assert(!is_valid_byte(t[i - start]));
                assert(!is_valid_bcd(trailing(bytes@, width as nat)));
            }
            return Err(invalid_format());
        }
        proof {
            assert(after.drop_last() =~= before);
            assert(is_valid_bcd(after)) by {
                assert forall|j: int| 0 <= j < after.len() implies is_valid_byte(#[trigger] after[j]) by {
                    if j < before.len() {
                        assert(after[j] == before[j]);
                    }
                }
            }
            lemma_bcd_value_bound(after);
            lemma_pow100_monotonic(after.len(), 19);
        }
        acc = acc * 100 + byte_to_pair(b) as u128;
        i = i + 1;
    }
    proof {
        lemma_bcd_value_bound(t);
        lemma_pow100_monotonic(t.len(), width as nat);
    }
    Ok(acc)
}

/// A byte with a nibble in `[10, 15]` is not valid packed BCD, so a sequence
/// that holds it is not either, and decoding it fails.
pub proof fn lemma_invalid_byte_rejected(b: u8)
    requires
        10 <= high_nibble(b) <= 15 || 10 <= low_nibble(b) <= 15,
    ensures
        !is_valid_byte(b),
        !is_valid_bcd(seq![b]),
{
    assert(seq![b][0] == b);
}

/// The exact inverse on the in-range values: encoding `v` in `n` bytes gives
/// `n` valid bytes, and decoding them gives `v` back, for every `v` in
/// `[0, 10^(2n) - 1]`.
pub proof fn lemma_round_trip(v: nat, n: nat)
    requires
        v <= max_value(n),
    ensures
        encoding(v, n).len() == n,
        is_valid_bcd(encoding(v, n)),
        trailing(encoding(v, n), n) == encoding(v, n),
        bcd_value(encoding(v, n)) == v,
{
    lemma_encoding_shape(v, n);
    lemma_encoding_value(v, n);
    vstd::arithmetic::div_mod::lemma_small_mod(v, pow100(n));
}

/// Resizing to a wider length and back gives the bytes back. Resizing to a
/// narrower length and back gives them back exactly when the bytes dropped on
/// the way were all zero.
pub proof fn lemma_resize_round_trip(s: Seq<u8>, m: nat)
    ensures
        resized(resized(s, m), s.len()) == s <==> (m >= s.len() || forall|i: int|
            0 <= i < s.len() - m ==> s[i] == 0),
{
    let n = s.len();
    let back = resized(resized(s, m), n);
    if m >= n {
        assert(back =~= s);
    } else {
        if forall|i: int| 0 <= i < n - m ==> s[i] == 0 {
            assert(back =~= s);
        }
        if back == s {
            assert forall|i: int| 0 <= i < n - m implies s[i] == 0 by {
                assert(back[i] == 0u8);
            }
        }
    }
}

/// Resizing keeps the bytes valid and gives the length asked for.
pub proof fn lemma_resized_shape(s: Seq<u8>, n: nat)
    requires
        is_valid_bcd(s),
    ensures
        resized(s, n).len() == n,
        is_valid_bcd(resized(s, n)),
{
    let r = resized(s, n);
    assert forall|i: int| 0 <= i < r.len() implies is_valid_byte(#[trigger] r[i]) by {
        if s.len() >= n {
            assert(r[i] == s[s.len() - n + i]);
        } else if i >= n - s.len() {
            assert(r[i] == s[i - (n - s.len())]);
        } else {
            assert(r[i] == 0u8);
            assert(is_valid_byte(0u8)) by (bit_vector);
        }
    }
}

/// `min_pairs(v)` bytes hold `v`, and fewer bytes do not, but where one byte
/// already does.
pub proof fn lemma_min_pairs(v: nat)
    ensures
        min_pairs(v) >= 1,
        v <= max_value(min_pairs(v)),
        min_pairs(v) == 1 || v > max_value((min_pairs(v) - 1) as nat),
    decreases v,
{
    reveal_with_fuel(pow100, 2);
    if v >= 100 {
        lemma_min_pairs(v / 100);
    }
}

/// The number of bytes that `value` needs: the fewest that hold it, and at
/// least one.
pub fn pair_count(value: u128) -> (n: usize)
    ensures
        n == min_pairs(value as nat),
        n <= 20,
    decreases value,
{
    if value < 100 {
        1
    } else {
        let rest = pair_count(value / 100);
        proof {
            lemma_min_pairs((value / 100) as nat);
            lemma_min_pairs(value as nat);
            if rest >= 20 {
                lemma_pow100_monotonic(19, (rest - 1) as nat);
                reveal_with_fuel(pow100, 20);
            }
        }
        rest + 1
    }
}

/// Encodes `value` in as few bytes as hold it, at least one. Fails with an
/// overflow when `value` exceeds `10^(2 * width) - 1`, the largest value of
/// its type (of `width` bytes).
pub fn encode_minimal(value: u128, width: usize, source: &str) -> (r: Result<
    Vec<u8>,
    BCDConversionError,
>)
    ensures
        r is Ok <==> value <= max_value(width as nat),
        r matches Ok(bytes) ==> bytes@ == encoding(value as nat, min_pairs(value as nat)),
        r matches Err(e) ==> e.spec_kind() == (BCDErrorKind::Overflow {
            input_value: value,
            max_allowed: max_value(width as nat) as u128,
        }),
{
    match max_for(width) {
        Some(max) => {
            if value > max {
                return Err(BCDConversionError::new_with_template_description(source, value, max));
            }
        },
        None => {},
    }
    let n = pair_count(value);
    Ok(encode_pairs(value, n))
}

/// `bytes` brought to `n` bytes: the leading bytes are dropped when it is
/// longer, zero bytes are put in front when it is shorter.
pub fn resize_bytes(bytes: &[u8], n: usize) -> (r: Vec<u8>)
    ensures
        r@ == resized(bytes@, n as nat),
{
    let len = bytes.len();
    let mut out: Vec<u8> = Vec::new();
    if len >= n {
        let start = len - n;
        let mut i: usize = start;
        while i < len
            invariant
                start <= i <= len,
                len == bytes@.len(),
                out@ == bytes@.subrange(start as int, i as int),
            decreases len - i,
        {
            out.push(bytes[i]);
            i = i + 1;
            proof {
                assert(out@ =~= bytes@.subrange(start as int, i as int));
            }
        }
    } else {
        let pad = n - len;
        let mut i: usize = 0;
        while i < pad
            invariant
                i <= pad,
                out@ == zeros(i as nat),
            decreases pad - i,
        {
            out.push(0u8);
            i = i + 1;
            proof {
                assert(out@ =~= zeros(i as nat));
            }
        }
        let mut j: usize = 0;
        while j < len
            invariant
                j <= len,
                len == bytes@.len(),
                out@ == zeros(pad as nat) + bytes@.subrange(0, j as int),
            decreases len - j,
        {
            out.push(bytes[j]);
            j = j + 1;
            proof {
                assert(out@ =~= zeros(pad as nat) + bytes@.subrange(0, j as int));
            }
        }
        proof {
            assert(bytes@.subrange(0, len as int) =~= bytes@);
        }
    }
    out
}

/// Decodes the last `width` bytes of a sequence whose bytes there are valid.
pub fn decode_valid(bytes: &[u8], width: usize) -> (v: u128)
    requires
        width <= 19,
        is_valid_bcd(trailing(bytes@, width as nat)),
    ensures
        v == bcd_value(trailing(bytes@, width as nat)),
        v < pow100(width as nat),
{
    match decode(bytes, width) {
        Ok(v) => v,
        Err(_) => 0,
    }
}

/// An array holding the bytes of `bytes`.
pub fn to_array<const N: usize>(bytes: &Vec<u8>) -> (r: [u8; N])
    requires
        bytes@.len() == N,
    ensures
        r@ == bytes@,
{
    let mut out = [0u8; N];
    let mut i: usize = 0;
    while i < N
        invariant
            i <= N,
            bytes@.len() == N,
            out@.len() == N,
            forall|j: int| 0 <= j < i ==> out@[j] == bytes@[j],
        decreases N - i,
    {
        out[i] = bytes[i];
        i = i + 1;
    }
    assert(out@ =~= bytes@);
    out
}

/// A copy of `bytes`.
pub fn copy_bytes(bytes: &[u8]) -> (r: Vec<u8>)
    ensures
        r@ == bytes@,
{
    let r = resize_bytes(bytes, bytes.len());
    assert(r@ =~= bytes@);
    r
}

} // verus!
