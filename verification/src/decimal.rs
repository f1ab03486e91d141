//! Decimal numbers in text, as the settings and the host's tables spell
//! them.

use vstd::prelude::*;

verus! {

/// Whether `c` is one of the digits `0` to `9`.
pub open spec fn is_digit(c: char) -> bool {
    0x30 <= c as u32 <= 0x39
}

/// The number that a run of digits spells in decimal.
pub open spec fn digits_value(digits: Seq<char>) -> nat
    decreases digits.len(),
{
    if digits.len() == 0 {
        0
    } else {
        digits_value(digits.drop_last()) * 10 + (digits.last() as u32 - 0x30) as nat
    }
}

/// The digits of a number in text: the text without a plus sign in front.
pub open spec fn unsigned_part(text: Seq<char>) -> Seq<char> {
    if text.len() > 0 && text[0] == '+' {
        text.subrange(1, text.len() as int)
    } else {
        text
    }
}

/// The number that `text` spells, where it is an optional plus sign and
/// then one digit or more, nothing else, and the number is at most `max`.
pub open spec fn decimal_number(text: Seq<char>, max: nat) -> Option<nat> {
    let digits = unsigned_part(text);
    if digits.len() > 0 && (forall|i: int| 0 <= i < digits.len() ==> is_digit(#[trigger] digits[i]))
        && digits_value(digits) <= max {
        Some(digits_value(digits))
    } else {
        None
    }
}

/// `str::parse::<u16>`: the number that the text spells in decimal, with an
/// optional plus sign, where 16 bits hold it; a failure of whatever kind
/// is `None`.
#[verifier::external_body]
pub(crate) fn parse_u16(text: &str) -> (r: Option<u16>)
    ensures
        match r {
            Some(v) => decimal_number(text@, u16::MAX as nat) == Some(v as nat),
            None => decimal_number(text@, u16::MAX as nat) is None,
        },
{
    text.parse::<u16>().ok()
}

/// `str::parse::<u32>`: the number that the text spells in decimal, with an
/// optional plus sign, where 32 bits hold it; a failure of whatever kind
/// is `None`.
#[verifier::external_body]
pub(crate) fn parse_u32(text: &str) -> (r: Option<u32>)
    ensures
        match r {
            Some(v) => decimal_number(text@, u32::MAX as nat) == Some(v as nat),
            None => decimal_number(text@, u32::MAX as nat) is None,
        },
{
    text.parse::<u32>().ok()
}

} // verus!
