//! Matchers that go on where the patterns are no question on one position.

pub mod noop;
pub mod regex;
