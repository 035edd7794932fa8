//! A fallback that matches the text of a label against the patterns as they
//! stand, by a regular expression.

use vstd::prelude::*;
use vstd::string::StringSliceAdditionalSpecFns;
use vstd::utf8::encode_utf8;
use regex_automata::meta::{BuildError, Regex};
use regex_automata::{Anchored, Input};
use regex_syntax::hir::{Dot, Hir, Look, Repetition};
use crate::error::{Fault, ParseError};
use crate::label::Label;
use crate::position::texts_of;
use crate::question::QuestionMatcher;
use crate::serializer::label_text;

verus! {

/// The byte `*`: any run of bytes of one line.
pub const STAR: u8 = 42;

/// The byte `?`: any one byte of a line.
pub const MARK: u8 = 63;

/// The byte that ends a line.
pub const NEWLINE: u8 = 10;

/// Whether the wildcard pattern matches the whole text. `*` stands for any
/// run of bytes without a newline, `?` for one byte that is no newline, and
/// every other byte for itself.
pub open spec fn wildcard_matches(pattern: Seq<u8>, text: Seq<u8>) -> bool
    decreases pattern.len(), text.len(),
{
    if pattern.len() == 0 {
        text.len() == 0
    } else if pattern[0] == STAR {
        wildcard_matches(pattern.drop_first(), text) || (text.len() > 0 && text[0] != NEWLINE
            && wildcard_matches(pattern, text.drop_first()))
    } else if pattern[0] == MARK {
        text.len() > 0 && text[0] != NEWLINE && wildcard_matches(
            pattern.drop_first(),
            text.drop_first(),
        )
    } else {
        text.len() > 0 && text[0] == pattern[0] && wildcard_matches(
            pattern.drop_first(),
            text.drop_first(),
        )
    }
}

/// Whether one of the wildcard patterns matches the whole text.
pub open spec fn matches_any(patterns: Seq<Seq<u8>>, text: Seq<u8>) -> bool {
    exists|i: int| 0 <= i < patterns.len() && wildcard_matches(#[trigger] patterns[i], text)
}

/// The items of all the parts, in order.
pub open spec fn flat<T>(parts: Seq<Seq<T>>) -> Seq<T>
    decreases parts.len(),
{
    if parts.len() == 0 {
        Seq::empty()
    } else {
        flat(parts.drop_last()) + parts.last()
    }
}

/// The bytes of each text.
pub open spec fn bytes_of(texts: Seq<Seq<char>>) -> Seq<Seq<u8>> {
    Seq::new(texts.len(), |i: int| encode_utf8(texts[i]))
}

/// `Hir` of regex-syntax: a regular expression as a tree.
#[verifier::external_type_specification]
#[verifier::external_body]
pub struct ExHir(regex_syntax::hir::Hir);

/// `meta::Regex` of regex-automata: a compiled regular expression.
#[verifier::external_type_specification]
#[verifier::external_body]
pub struct ExRegex(regex_automata::meta::Regex);

/// `meta::BuildError` of regex-automata: why an expression was not compiled.
#[verifier::external_type_specification]
#[verifier::external_body]
pub struct ExBuildError(regex_automata::meta::BuildError);

/// The wildcard pattern that an expression stands for, which may match at
/// the start of a text; none for an expression that stands for no wildcard
/// pattern.
pub uninterp spec fn hir_pattern(hir: Hir) -> Option<Seq<u8>>;

/// The wildcard patterns of which an expression matches one, each up to the
/// end of the text; none for an expression of another shape.
pub uninterp spec fn hir_alternatives(hir: Hir) -> Option<Seq<Seq<u8>>>;

/// The wildcard patterns of which a regular expression matches one, each
/// against the whole text; none for a regular expression that was not
/// compiled from such patterns.
pub uninterp spec fn regex_patterns(regex: Regex) -> Option<Seq<Seq<u8>>>;

/// Whether each expression stands for a wildcard pattern.
pub open spec fn all_patterns(parts: Seq<Hir>) -> bool {
    forall|i: int| 0 <= i < parts.len() ==> hir_pattern(#[trigger] parts[i]) is Some
}

/// The patterns of each expression.
pub open spec fn patterns_of(parts: Seq<Hir>) -> Seq<Seq<u8>> {
    Seq::new(parts.len(), |i: int| hir_pattern(parts[i])->0)
}

/// Whether each expression stands for wildcard patterns up to the end of the
/// text.
pub open spec fn all_alternatives(parts: Seq<Hir>) -> bool {
    forall|i: int| 0 <= i < parts.len() ==> hir_alternatives(#[trigger] parts[i]) is Some
}

/// The alternatives of each expression.
pub open spec fn alternatives_of(parts: Seq<Hir>) -> Seq<Seq<Seq<u8>>> {
    Seq::new(parts.len(), |i: int| hir_alternatives(parts[i])->0)
}

/// `Hir::repetition` of regex-syntax, zero times or more and with no upper
/// bound, over `Hir::dot(Dot::AnyByteExceptLF)`: the expression matches any
/// run of bytes that holds no newline, which is what `*` stands for.
#[verifier::external_body]
fn hir_any_run() -> (hir: Hir)
    ensures
        hir_pattern(hir) == Some(seq![STAR]),
{
    Hir::repetition(
        Repetition {
            min: 0,
            max: None,
            greedy: true,
            sub: Box::new(Hir::dot(Dot::AnyByteExceptLF)),
        },
    )
}

/// `Hir::dot(Dot::AnyByteExceptLF)` of regex-syntax: the expression matches
/// one byte that is no newline, which is what `?` stands for.
#[verifier::external_body]
fn hir_any_one() -> (hir: Hir)
    ensures
        hir_pattern(hir) == Some(seq![MARK]),
{
    Hir::dot(Dot::AnyByteExceptLF)
}

/// `Hir::literal` of regex-syntax on one byte: the expression matches this
/// byte and nothing else. The byte is none of the two wildcards, so that it
/// stands for itself in a pattern.
#[verifier::external_body]
fn hir_literal(byte: u8) -> (hir: Hir)
    requires
        byte != STAR,
        byte != MARK,
    ensures
        hir_pattern(hir) == Some(seq![byte]),
{
    Hir::literal([byte])
}

/// `Hir::concat` of regex-syntax, on expressions that each stand for a
/// wildcard pattern: the expression matches what the parts match one behind
/// the other, so its pattern is their patterns in a row.
#[verifier::external_body]
fn hir_concat(parts: Vec<Hir>) -> (hir: Hir)
    requires
        all_patterns(parts@),
    ensures
        hir_pattern(hir) == Some(flat(patterns_of(parts@))),
{
    Hir::concat(parts)
}

/// `Hir::concat` of regex-syntax on an expression that stands for a wildcard
/// pattern and `Hir::look(Look::End)`: the expression matches what the given
/// one matches, and only where that ends at the end of the text.
#[verifier::external_body]
fn hir_to_end(part: Hir) -> (hir: Hir)
    requires
        hir_pattern(part) is Some,
    ensures
        hir_alternatives(hir) == Some(seq![hir_pattern(part)->0]),
{
    Hir::concat(vec![part, Hir::look(Look::End)])
}

/// `Hir::alternation` of regex-syntax, on expressions that each stand for
/// wildcard patterns up to the end of the text: the expression matches what
/// one of the parts matches, so its alternatives are those of all the parts.
#[verifier::external_body]
fn hir_alternation(parts: Vec<Hir>) -> (hir: Hir)
    requires
        all_alternatives(parts@),
    ensures
        hir_alternatives(hir) == Some(flat(alternatives_of(parts@))),
{
    Hir::alternation(parts)
}

/// `Builder::build_from_hir` of regex-automata, on `Regex::builder()` and an
/// expression that stands for wildcard patterns up to the end of the text.
/// Where it succeeds the regular expression matches what the expression
/// matches. Nothing is claimed of when it succeeds.
#[verifier::external_body]
fn regex_from_hir(hir: &Hir) -> (r: Result<Regex, BuildError>)
    requires
        hir_alternatives(*hir) is Some,
    ensures
        r matches Ok(regex) ==> regex_patterns(regex) == hir_alternatives(*hir),
{
    Regex::builder().build_from_hir(hir)
}

/// `Regex::is_match` of regex-automata on an input that is anchored at its
/// start (`Anchored::Yes`): whether a match begins at the start of the text.
/// Of a regular expression that was compiled from wildcard patterns, each up
/// to the end of the text, this is whether one of the patterns matches the
/// whole text. Nothing is claimed of another regular expression.
#[verifier::external_body]
fn regex_is_match(regex: &Regex, text: &str) -> (r: bool)
    ensures
        regex_patterns(*regex) matches Some(patterns) ==> r == matches_any(
            patterns,
            text.spec_bytes(),
        ),
{
    regex.is_match(Input::new(text).anchored(Anchored::Yes))
}

/// `Clone::clone` of regex-automata's `Regex`: the copy matches what the
/// regular expression that it was made from matches.
pub assume_specification[ <regex_automata::meta::Regex as Clone>::clone ](
    regex: &regex_automata::meta::Regex,
) -> (copy: regex_automata::meta::Regex)
    ensures
        regex_patterns(copy) == regex_patterns(*regex),
;

/// The parts of `flat` behind one more part.
proof fn lemma_flat_push<T>(parts: Seq<Seq<T>>, part: Seq<T>)
    ensures
        flat(parts.push(part)) == flat(parts) + part,
{
    assert(parts.push(part).drop_last() =~= parts);
}

/// A question that matches the text of a label against wildcard patterns. It
/// holds a regular expression that was compiled from them.
#[derive(Debug)]
pub struct RegexQuestion {
    regex: Regex,
}

impl Clone for RegexQuestion {
    /// A copy of this question, with the same patterns.
    fn clone(&self) -> (copy: Self)
        ensures
            copy.patterns() == self.patterns(),
    {
        proof {
            use_type_invariant(self);
        }
        Self { regex: self.regex.clone() }
    }
}

impl RegexQuestion {
    /// The regular expression was compiled from wildcard patterns, each up to
    /// the end of the text.
    #[verifier::type_invariant]
    spec fn compiled_from_patterns(self) -> bool {
        regex_patterns(self.regex) is Some
    }

    /// The wildcard patterns of this question, as bytes.
    pub closed spec fn patterns(&self) -> Seq<Seq<u8>> {
        regex_patterns(self.regex)->0
    }

    /// The expression that a wildcard pattern stands for: `*` and `?` are
    /// wildcards, every other byte stands for itself.
    pub fn parse_wildcard(pattern: &str) -> (hir: Hir)
        ensures
            hir_pattern(hir) == Some(pattern.spec_bytes()),
    {
        let bytes = pattern.as_bytes();
        let mut parts: Vec<Hir> = Vec::new();
        let mut i: usize = 0;
        assert(patterns_of(parts@) =~= Seq::empty());
        assert(bytes@.take(0) =~= Seq::empty());
        while i < bytes.len()
            invariant
                i <= bytes.len(),
                all_patterns(parts@),
                flat(patterns_of(parts@)) == bytes@.take(i as int),
            decreases bytes.len() - i,
        {
            let byte = bytes[i];
            let part = if byte == STAR {
                hir_any_run()
            } else if byte == MARK {
                hir_any_one()
            } else {
                hir_literal(byte)
            };
            let ghost before = patterns_of(parts@);
            let ghost earlier = parts@;
            parts.push(part);
            proof {
                assert forall|k: int| 0 <= k < parts@.len() implies hir_pattern(
                    #[trigger] parts@[k],
                ) is Some by {
                    if k < earlier.len() {
                        assert(parts@[k] == earlier[k]);
                    }
                }
                assert(patterns_of(parts@) =~= before.push(seq![byte]));
                lemma_flat_push(before, seq![byte]);
                assert(bytes@.take(i + 1) =~= bytes@.take(i as int) + seq![byte]);
            }
            i = i + 1;
        }
        assert(bytes@.take(i as int) =~= bytes@);
        hir_concat(parts)
    }

    /// The question from the outcome of compiling wildcard patterns.
    pub fn from_built(built: Result<Regex, BuildError>) -> (r: Result<Self, ParseError>)
        requires
            built matches Ok(regex) ==> regex_patterns(regex) is Some,
        ensures
            match built {
                Ok(regex) => r matches Ok(question) && Some(question.patterns())
                    == regex_patterns(regex),
                Err(_) => r matches Err(e) && e@ == Fault::FailRegex,
            },
    {
        match built {
            Ok(regex) => Ok(Self { regex }),
            Err(_) => Err(ParseError::FailRegex),
        }
    }
}

impl QuestionMatcher for RegexQuestion {
    /// The question holds the patterns, as bytes.
    open spec fn parsed_from(&self, patterns: Seq<Seq<char>>) -> bool {
        self.patterns() == bytes_of(patterns)
    }

    /// Patterns are rejected only where they cannot be compiled.
    open spec fn rejected(patterns: Seq<Seq<char>>, fault: Fault) -> bool {
        fault == Fault::FailRegex
    }

    /// One of the patterns matches the whole text of the label.
    open spec fn accepts(&self, label: &Label) -> bool {
        matches_any(self.patterns(), encode_utf8(label_text(*label)))
    }

    fn parse(patterns: &[&str]) -> (r: Result<Self, ParseError>) {
        let ghost wanted = bytes_of(texts_of(patterns@));
        let mut parts: Vec<Hir> = Vec::new();
        let mut i: usize = 0;
        assert(alternatives_of(parts@) =~= Seq::empty());
        assert(wanted.take(0) =~= Seq::empty());
        while i < patterns.len()
            invariant
                i <= patterns.len(),
                wanted == bytes_of(texts_of(patterns@)),
                all_alternatives(parts@),
                flat(alternatives_of(parts@)) == wanted.take(i as int),
            decreases patterns.len() - i,
        {
            let part = hir_to_end(Self::parse_wildcard(patterns[i]));
            let ghost before = alternatives_of(parts@);
            let ghost earlier = parts@;
            parts.push(part);
            proof {
                let bytes = patterns@[i as int].spec_bytes();
                assert forall|k: int| 0 <= k < parts@.len() implies hir_alternatives(
                    #[trigger] parts@[k],
                ) is Some by {
                    if k < earlier.len() {
                        assert(parts@[k] == earlier[k]);
                    }
                }
                assert(alternatives_of(parts@) =~= before.push(seq![bytes]));
                lemma_flat_push(before, seq![bytes]);
                assert(wanted.take(i + 1) =~= wanted.take(i as int) + seq![bytes]);
            }
            i = i + 1;
        }
        assert(wanted.take(i as int) =~= wanted);
        let hir = hir_alternation(parts);
        Self::from_built(regex_from_hir(&hir))
    }

    fn test(&self, label: &Label) -> (r: bool) {
        proof {
            use_type_invariant(self);
        }
        let text = label.to_string();
        regex_is_match(&self.regex, text.as_str())
    }
}

/// The inner matcher where the patterns parse to one, else a question that
/// matches the text of a label against the patterns as they stand.
#[derive(Debug, Clone)]
pub enum RegexFallback<T: QuestionMatcher> {
    /// The patterns parsed.
    Parsed(T),
    /// The patterns did not parse.
    Regex(RegexQuestion),
}

impl<T: QuestionMatcher> RegexFallback<T> {
    /// Wraps the outcome of the inner matcher's parsing: its matcher, or, in
    /// place of its fault, the question that holds the patterns as they
    /// stand.
    pub fn or_plain(parsed: Result<T, ParseError>, patterns: &[&str]) -> (r: Result<
        Self,
        ParseError,
    >)
        ensures
            match parsed {
                Ok(inner) => r matches Ok(fallback) && fallback == RegexFallback::Parsed(inner),
                Err(_) => match r {
                    Ok(fallback) => fallback matches RegexFallback::Regex(question)
                        && question.patterns() == bytes_of(texts_of(patterns@)),
                    Err(e) => e@ == Fault::FailRegex,
                },
            },
    {
        match parsed {
            Ok(inner) => Ok(RegexFallback::Parsed(inner)),
            Err(_) => match RegexQuestion::parse(patterns) {
                Ok(question) => Ok(RegexFallback::Regex(question)),
                Err(e) => Err(e),
            },
        }
    }
}

impl<T: QuestionMatcher> QuestionMatcher for RegexFallback<T> {
    /// The inner matcher is what the patterns parse to; or it rejects them,
    /// and the question holds them as they stand.
    open spec fn parsed_from(&self, patterns: Seq<Seq<char>>) -> bool {
        match self {
            RegexFallback::Parsed(inner) => inner.parsed_from(patterns),
            RegexFallback::Regex(question) => question.parsed_from(patterns) && exists|
                fault: Fault,
            |
                T::rejected(patterns, fault),
        }
    }

    /// Patterns are rejected only where the inner matcher rejects them and
    /// they cannot be compiled either.
    open spec fn rejected(patterns: Seq<Seq<char>>, fault: Fault) -> bool {
        fault == Fault::FailRegex && exists|inner: Fault| T::rejected(patterns, inner)
    }

    open spec fn accepts(&self, label: &Label) -> bool {
        match self {
            RegexFallback::Parsed(inner) => inner.accepts(label),
            RegexFallback::Regex(question) => question.accepts(label),
        }
    }

    fn parse(patterns: &[&str]) -> (r: Result<Self, ParseError>) {
        let parsed = T::parse(patterns);
        proof {
            if parsed is Err {
                assert(T::rejected(texts_of(patterns@), parsed->Err_0@));
            }
        }
        Self::or_plain(parsed, patterns)
    }

    fn test(&self, label: &Label) -> (r: bool) {
        match self {
            RegexFallback::Parsed(inner) => inner.test(label),
            RegexFallback::Regex(question) => question.test(label),
        }
    }
}

} // verus!
