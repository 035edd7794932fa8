//! Full-context labels of HTS-style speech synthesis, and questions on them.
//!
//! A question is a set of wildcard patterns that all constrain one field of a
//! label. [`AllQuestion`] infers that field from the delimiters around the
//! variable part of each pattern, compiles the variable parts into a range and
//! tests labels against it.

pub mod error;
pub mod fallback;
pub mod label;
pub mod laws;
pub mod number;
pub mod parse_position;
pub mod parser;
pub mod position;
pub mod question;
pub mod serializer;
pub mod span;
pub mod text;

pub use error::{ParseError, PositionError};
pub use fallback::noop::NoOpFallback;
pub use fallback::regex::{RegexFallback, RegexQuestion};
pub use question::{question, AllQuestion, Question, QuestionMatcher};
pub use label::{
    AccentPhraseCurrent, AccentPhrasePrevNext, BreathGroupCurrent, BreathGroupPrevNext, Label,
    Mora, Phoneme, Utterance, Word,
};
