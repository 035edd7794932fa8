//! Decimal numbers in text, as the fields of a label hold them.

use vstd::prelude::*;
use core::num::ParseIntError;

verus! {

/// std's `ParseIntError`: why a text is no number. It is carried through as
/// it comes.
#[verifier::external_type_specification]
#[verifier::external_body]
pub struct ExParseIntError(std::num::ParseIntError);

/// `Clone::clone` of std's `ParseIntError`. Nothing is claimed of the copy.
pub assume_specification[ <std::num::ParseIntError as Clone>::clone ](
    e: &std::num::ParseIntError,
) -> std::num::ParseIntError
;

/// Whether `c` is one of `0` to `9`.
pub open spec fn is_digit(c: char) -> bool {
    '0' <= c <= '9'
}

/// The number that the digit `c` stands for.
pub open spec fn digit_value(c: char) -> int {
    c as int - '0' as int
}

/// Whether `s` is made of digits only.
pub open spec fn all_digits(s: Seq<char>) -> bool {
    forall|i: int| 0 <= i < s.len() ==> is_digit(#[trigger] s[i])
}

/// The number that a run of digits stands for; 0 for the empty run.
pub open spec fn digits_value(s: Seq<char>) -> int
    decreases s.len(),
{
    if s.len() == 0 {
        0
    } else {
        10 * digits_value(s.drop_last()) + digit_value(s.last())
    }
}

/// The number that one or more digits stand for.
pub open spec fn magnitude(s: Seq<char>) -> Option<int> {
    if s.len() > 0 && all_digits(s) {
        Some(digits_value(s))
    } else {
        None
    }
}

/// The integer that `s` denotes: digits behind an optional `+`, or, where
/// `signed` holds, behind an optional `-`.
pub open spec fn decimal(s: Seq<char>, signed: bool) -> Option<int> {
    if s.len() > 0 && s[0] == '+' {
        magnitude(s.drop_first())
    } else if signed && s.len() > 0 && s[0] == '-' {
        match magnitude(s.drop_first()) {
            Some(m) => Some(-m),
            None => None,
        }
    } else {
        magnitude(s)
    }
}

/// The value of `s` read as a `u8`, where it denotes one.
pub open spec fn decimal_u8(s: Seq<char>) -> Option<u8> {
    match decimal(s, false) {
        Some(v) => if v <= u8::MAX {
            Some(v as u8)
        } else {
            None
        },
        None => None,
    }
}

/// The value of `s` read as an `i8`, where it denotes one.
pub open spec fn decimal_i8(s: Seq<char>) -> Option<i8> {
    match decimal(s, true) {
        Some(v) => if i8::MIN <= v <= i8::MAX {
            Some(v as i8)
        } else {
            None
        },
        None => None,
    }
}

/// Why std takes a text for no number: what a `ParseIntError` holds.
#[derive(Debug, Clone, Copy, PartialEq, Eq, Structural)]
pub enum IntFault {
    /// The text is empty.
    Empty,
    /// The text holds a character that is no digit where a digit has to stand.
    InvalidDigit,
    /// The number is too large for the type.
    PosOverflow,
    /// The number is too small for the type.
    NegOverflow,
    /// The number is zero where it must not be.
    Zero,
}

/// The kind that a `ParseIntError` of std holds.
pub uninterp spec fn error_kind(e: ParseIntError) -> IntFault;

/// The kind of the error that `str::parse::<u8>` of std gives on a text that
/// is no `u8`.
pub uninterp spec fn u8_fault(text: Seq<char>) -> IntFault;

/// The kind of the error that `str::parse::<i8>` of std gives on a text that
/// is no `i8`.
pub uninterp spec fn i8_fault(text: Seq<char>) -> IntFault;

/// The kind of error that std documents for a text that is no number between
/// `min` and `max`: the empty text is empty, a text that does not start with
/// a digit behind its sign holds an invalid digit, and digits alone overflow.
/// Nothing is said of digits with another character behind them.
pub open spec fn documented_fault(text: Seq<char>, signed: bool, min: int, max: int) -> Option<
    IntFault,
> {
    let body = if text.len() > 0 && (text[0] == '+' || (signed && text[0] == '-')) {
        text.drop_first()
    } else {
        text
    };
    if text.len() == 0 {
        Some(IntFault::Empty)
    } else if body.len() == 0 || !is_digit(body[0]) {
        Some(IntFault::InvalidDigit)
    } else if all_digits(body) {
        match decimal(text, signed) {
            Some(value) => if value > max {
                Some(IntFault::PosOverflow)
            } else if value < min {
                Some(IntFault::NegOverflow)
            } else {
                None
            },
            None => None,
        }
    } else {
        None
    }
}

/// `str::parse::<u8>` of std. It accepts an optional `+` and then digits only,
/// and fails on the empty string, on any other character and on a value above
/// 255: the result is `Ok` exactly where [`decimal_u8`] gives a value, and
/// holds that value. The error has the kind that std gives on this text,
/// which is the documented one where std documents one.
#[verifier::external_body]
pub(crate) fn parse_u8(s: &str) -> (r: Result<u8, ParseIntError>)
    ensures
        match r {
            Ok(v) => decimal_u8(s@) == Some(v),
            Err(e) => {
                &&& decimal_u8(s@) is None
                &&& error_kind(e) == u8_fault(s@)
                &&& documented_fault(s@, false, 0, 255) matches Some(kind) ==> error_kind(e)
                    == kind
            },
        },
{
    s.parse::<u8>()
}

/// `str::parse::<i8>` of std. It accepts an optional `+` or `-` and then digits
/// only, and fails on the empty string, on any other character and on a value
/// outside -128..=127: the result is `Ok` exactly where [`decimal_i8`] gives a
/// value, and holds that value. The error has the kind that std gives on this
/// text, which is the documented one where std documents one.
#[verifier::external_body]
pub(crate) fn parse_i8(s: &str) -> (r: Result<i8, ParseIntError>)
    ensures
        match r {
            Ok(v) => decimal_i8(s@) == Some(v),
            Err(e) => {
                &&& decimal_i8(s@) is None
                &&& error_kind(e) == i8_fault(s@)
                &&& documented_fault(s@, true, -128, 127) matches Some(kind) ==> error_kind(e)
                    == kind
            },
        },
{
    s.parse::<i8>()
}

} // verus!
