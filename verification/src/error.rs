//! Why a set of patterns is no question.

use vstd::prelude::*;
use core::num::ParseIntError;
use crate::number::{error_kind, IntFault};

verus! {

/// Why a pattern names no position.
#[derive(Debug, Clone, Copy, PartialEq, Eq, Structural)]
pub enum PositionError {
    /// The delimiters around the range section determine no position.
    NoMatchingPosition,
    /// The position is not `P1`, so it requires an asterisk as the first character of the pattern.
    MissingPrefixAsterisk,
    /// The position is not `K3`, so it requires an asterisk as the last character of the pattern.
    MissingSuffixAsterisk,
    /// The prefix (the text before the range section) conflicts with the position.
    PrefixVerifyError,
    /// The suffix (the text after the range section) conflicts with the position.
    SuffixVerifyError,
    /// The range section is empty: the pattern matches no label.
    EmptyRange,
}

/// Why a set of patterns is no question.
#[derive(Debug, Clone, PartialEq, Eq)]
pub enum ParseError {
    /// A pattern points at another position than the first pattern does.
    PositionMismatch,
    /// A pattern names no position.
    InvalidPosition(PositionError),
    /// There is no pattern, or the range is empty.
    Empty,
    /// The ranges of a numerical field leave a gap.
    IncontinuousRange,
    /// The digits before a trailing `?` are no number of the field's type.
    FailWildcard(ParseIntError),
    /// A range section without wildcard is no number of the field's type.
    FailLiteral(ParseIntError),
    /// A boolean field holds something else than `0` or `1`.
    InvalidBoolean(String),
    /// The patterns could not be compiled to an automaton.
    FailRegex,
}

/// What a [`ParseError`] says, as a mathematical value.
pub enum Fault {
    PositionMismatch,
    InvalidPosition(PositionError),
    Empty,
    IncontinuousRange,
    FailWildcard(IntFault),
    FailLiteral(IntFault),
    InvalidBoolean(Seq<char>),
    FailRegex,
}

impl View for ParseError {
    type V = Fault;

    open spec fn view(&self) -> Fault {
        match self {
            ParseError::PositionMismatch => Fault::PositionMismatch,
            ParseError::InvalidPosition(e) => Fault::InvalidPosition(*e),
            ParseError::Empty => Fault::Empty,
            ParseError::IncontinuousRange => Fault::IncontinuousRange,
            ParseError::FailWildcard(e) => Fault::FailWildcard(error_kind(*e)),
            ParseError::FailLiteral(e) => Fault::FailLiteral(error_kind(*e)),
            ParseError::InvalidBoolean(text) => Fault::InvalidBoolean(text@),
            ParseError::FailRegex => Fault::FailRegex,
        }
    }
}

} // verus!
