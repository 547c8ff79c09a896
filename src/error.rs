//! The two ways a conversion can fail.
use vstd::prelude::*;

verus! {

/// What went wrong in a conversion.
#[derive(Clone, Copy, Debug, PartialEq, Eq, Structural)]
pub enum BCDErrorKind {
    /// The integer is larger than the byte count can represent.
    Overflow { input_value: u128, max_allowed: u128 },
    /// A byte has a nibble outside `[0, 9]`.
    InvalidFormat,
}

/// A failed conversion: its kind and a human-readable description.
#[derive(Debug)]
pub struct BCDConversionError {
    kind: BCDErrorKind,
    description: String,
}

/// The character of a decimal digit.
pub open spec fn digit_char(d: u8) -> char {
    (d + 48) as u8 as char
}

/// The decimal notation of `v`, without leading zeros.
pub open spec fn decimal(v: nat) -> Seq<char>
    decreases v,
{
    if v < 10 {
        seq![digit_char(v as u8)]
    } else {
        decimal(v / 10).push(digit_char((v % 10) as u8))
    }
}

/// The description of an overflow of `v` past `max` on a conversion from type `t`.
pub open spec fn overflow_message(t: Seq<char>, v: nat, max: nat) -> Seq<char> {
    "Error on "@ + t + " to bcd, passed in value ("@ + decimal(v) + ") exceeds maximum of "@
        + decimal(max)
}

/// Relies on `String::push`: appends one character at the end.
#[verifier::external_body]
fn push_char(s: &mut String, c: char)
    ensures
        final(s)@ == old(s)@.push(c),
{
    s.push(c)
}

/// Relies on `String::push_str`: appends the characters of `t` at the end.
#[verifier::external_body]
fn push_text(s: &mut String, t: &str)
    ensures
        final(s)@ == old(s)@ + t@,
{
    s.push_str(t)
}

/// Appends the decimal notation of `v`.
fn push_decimal(s: &mut String, v: u128)
    ensures
        final(s)@ == old(s)@ + decimal(v as nat),
    decreases v,
{
    let ghost start = s@;
    if v >= 10 {
        push_decimal(s, v / 10);
    }
    let d: u8 = (v % 10) as u8;
    push_char(s, (d + 48) as char);
    assert(s@ =~= start + decimal(v as nat));
}

impl BCDConversionError {
    /// The kind of the failure.
    pub closed spec fn spec_kind(&self) -> BCDErrorKind {
        self.kind
    }

    /// The description of the failure.
    pub closed spec fn spec_description(&self) -> Seq<char> {
        self.description@
    }

    /// An invalid-format error with the given description.
    pub fn new(description: String) -> (e: Self)
        ensures
            e.spec_kind() == BCDErrorKind::InvalidFormat,
            e.spec_description() == description@,
    {
        BCDConversionError { kind: BCDErrorKind::InvalidFormat, description }
    }

    /// An invalid-format error with the given description, on the heap.
    pub fn new_boxed(description: String) -> (e: Box<Self>)
        ensures
            e.spec_kind() == BCDErrorKind::InvalidFormat,
            e.spec_description() == description@,
    {
        Box::new(Self::new(description))
    }

    /// An overflow error for the value `v` of type `t`, whose largest
    /// representable value is `max`.
    pub fn new_with_template_description(t: &str, v: u128, max: u128) -> (e: Self)
        ensures
            e.spec_kind() == (BCDErrorKind::Overflow { input_value: v, max_allowed: max }),
            e.spec_description() == overflow_message(t@, v as nat, max as nat),
    {
        let mut description = String::new();
        push_text(&mut description, "Error on ");
        push_text(&mut description, t);
        push_text(&mut description, " to bcd, passed in value (");
        push_decimal(&mut description, v);
        push_text(&mut description, ") exceeds maximum of ");
        push_decimal(&mut description, max);
        assert(description@ =~= overflow_message(t@, v as nat, max as nat));
        BCDConversionError {
            kind: BCDErrorKind::Overflow { input_value: v, max_allowed: max },
            description,
        }
    }

    /// The kind of the failure.
    pub fn kind(&self) -> (k: BCDErrorKind)
        ensures
            k == self.spec_kind(),
    {
        self.kind
    }

    /// The description of the failure.
    pub fn description(&self) -> (d: &str)
        ensures
            d@ == self.spec_description(),
    {
        self.description.as_str()
    }
}

} // verus!
