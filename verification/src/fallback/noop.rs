//! A fallback that matches nothing.

use vstd::prelude::*;
use crate::error::{Fault, ParseError};
use crate::label::Label;
use crate::position::texts_of;
use crate::question::QuestionMatcher;

verus! {

/// The inner matcher where the patterns parse to one, else a matcher that
/// matches no label.
#[derive(Debug, Clone, PartialEq, Eq)]
pub enum NoOpFallback<T: QuestionMatcher> {
    /// The patterns parsed.
    Parsed(T),
    /// The patterns did not parse.
    NoOp,
}

impl<T: QuestionMatcher> NoOpFallback<T> {
    /// Wraps the outcome of the inner matcher's parsing: its matcher, or the
    /// matcher of nothing in place of its fault.
    pub fn from_parsed(parsed: Result<T, ParseError>) -> (fallback: Self)
        ensures
            match parsed {
                Ok(inner) => fallback == NoOpFallback::Parsed(inner),
                Err(_) => fallback == NoOpFallback::<T>::NoOp,
            },
    {
        match parsed {
            Ok(inner) => NoOpFallback::Parsed(inner),
            Err(_) => NoOpFallback::NoOp,
        }
    }
}

impl<T: QuestionMatcher> QuestionMatcher for NoOpFallback<T> {
    /// The inner matcher is what the patterns parse to, or they are rejected
    /// by it.
    open spec fn parsed_from(&self, patterns: Seq<Seq<char>>) -> bool {
        match self {
            NoOpFallback::Parsed(inner) => inner.parsed_from(patterns),
            NoOpFallback::NoOp => exists|fault: Fault| T::rejected(patterns, fault),
        }
    }

    /// No patterns are rejected.
    open spec fn rejected(patterns: Seq<Seq<char>>, fault: Fault) -> bool {
        false
    }

    open spec fn accepts(&self, label: &Label) -> bool {
        match self {
            NoOpFallback::Parsed(inner) => inner.accepts(label),
            NoOpFallback::NoOp => false,
        }
    }

    fn parse(patterns: &[&str]) -> (r: Result<Self, ParseError>)
        ensures
            r is Ok,
    {
        let parsed = T::parse(patterns);
        proof {
            if parsed is Err {
                assert(T::rejected(texts_of(patterns@), parsed->Err_0@));
            }
        }
        Ok(Self::from_parsed(parsed))
    }

    fn test(&self, label: &Label) -> (r: bool) {
        match self {
            NoOpFallback::Parsed(inner) => inner.test(label),
            NoOpFallback::NoOp => false,
        }
    }
}

} // verus!
