//! Questions: a position and the range that its field has to lie in.

use vstd::prelude::*;
use std::ops::Range;
use crate::error::{Fault, ParseError, PositionError};
use crate::label::Label;
use crate::parse_position::{resolve, split_of, verdict, PositionSplit};
use crate::position::{
    texts_of, AllPosition, BooleanPosition, CategoryPosition, PhonePosition, Position,
    SignedRangePosition, UndefinedPotision, UnsignedRangePosition,
};
use crate::span::Span;
use crate::text::chars_of;

verus! {

/// A matcher that is made from the patterns of a question and then tests labels.
pub trait QuestionMatcher: Sized {
    /// Whether this matcher is what the patterns parse to.
    spec fn parsed_from(&self, patterns: Seq<Seq<char>>) -> bool;

    /// Whether the patterns fail to parse, with this fault.
    spec fn rejected(patterns: Seq<Seq<char>>, fault: Fault) -> bool;

    /// Whether the label matches.
    spec fn accepts(&self, label: &Label) -> bool;

    /// Parses the patterns of a question.
    fn parse(patterns: &[&str]) -> (r: Result<Self, ParseError>)
        ensures
            match r {
                Ok(matcher) => matcher.parsed_from(texts_of(patterns@)),
                Err(e) => Self::rejected(texts_of(patterns@), e@),
            },
    ;

    /// Checks if the full-context label matches the question.
    fn test(&self, label: &Label) -> (r: bool)
        ensures
            r == self.accepts(label),
    ;
}

/// A position and the range that the field there has to lie in; no range
/// where the field has to be undefined.
#[derive(Debug, Clone, PartialEq, Eq)]
pub struct Question<P: Position> {
    /// The position this question matches to.
    pub position: P,
    /// The parsed range
    pub range: Option<P::Range>,
}

/// The range section that stands for an undefined field.
pub open spec fn undefined_text() -> Seq<char> {
    seq!['x', 'x']
}

impl<P: Position> Question<P> {
    /// The range of this question as a mathematical value.
    pub open spec fn model(&self) -> Option<P::Model> {
        match self.range {
            Some(range) => Some(P::model(&range)),
            None => None,
        }
    }

    /// What the range sections of a question compile to: no range for the
    /// one section `xx`, else the range that the kind of the position makes
    /// of them.
    pub open spec fn compiled(position: P, texts: Seq<Seq<char>>) -> Result<
        Option<P::Model>,
        Fault,
    > {
        if texts == seq![undefined_text()] {
            Ok(None)
        } else {
            match position.compile(texts) {
                Ok(model) => Ok(Some(model)),
                Err(fault) => Err(fault),
            }
        }
    }

    /// Whether the label matches: its field lies in the range, or the
    /// question has no range and the label no such field. A question on a
    /// field that no label defines matches every label.
    pub open spec fn accepts(&self, label: &Label) -> bool {
        self.position.never_defined() || match (self.range, self.position.field(label)) {
            (Some(range), Some(target)) => self.position.admits(&range, &target),
            (None, None) => true,
            _ => false,
        }
    }

    /// Compiles the range sections of a question on `position`.
    pub fn new(position: P, ranges: &[&str]) -> (r: Result<Self, ParseError>)
        ensures
            match r {
                Ok(question) => question.position == position && Self::compiled(
                    position,
                    texts_of(ranges@),
                ) == Ok::<Option<P::Model>, Fault>(question.model()),
                Err(e) => Self::compiled(position, texts_of(ranges@)) == Err::<
                    Option<P::Model>,
                    Fault,
                >(e@),
            },
    {
        if ranges.len() == 1 {
            let chars = chars_of(ranges[0]);
            if chars.len() == 2 && chars[0] == 'x' && chars[1] == 'x' {
                assert(ranges@[0]@ =~= undefined_text());
                assert(texts_of(ranges@) =~= seq![undefined_text()]);
                return Ok(Self { position, range: None });
            }
            assert(texts_of(ranges@)[0] != undefined_text());
        }
        assert(texts_of(ranges@) != seq![undefined_text()]) by {
            if texts_of(ranges@) == seq![undefined_text()] {
                assert(texts_of(ranges@).len() == 1);
                assert(seq![undefined_text()][0] == undefined_text());
            }
        }
        match position.range(ranges) {
            Ok(range) => Ok(Self { position, range: Some(range) }),
            Err(e) => Err(e),
        }
    }

    /// A question that asks for the field at `position` to be undefined.
    pub fn new_xx(position: P) -> (question: Self)
        ensures
            question.position == position,
            question.range is None,
    {
        Self { position, range: None }
    }

    /// Check if this question matches
    pub fn test(&self, label: &Label) -> (r: bool)
        ensures
            r == self.accepts(label),
    {
        if self.position.is_never_defined() {
            return true;
        }
        match (&self.range, self.position.get(label)) {
            (Some(range), Some(target)) => self.position.test(range, target),
            (None, None) => true,
            _ => false,
        }
    }
}

/// A question on a position of any kind.
#[derive(Debug, PartialEq, Eq)]
pub enum AllQuestion {
    /// Question about phone fields of full-context label
    Phone(Question<PhonePosition>),
    /// Question about signed integer fields of full-context label
    SignedRange(Question<SignedRangePosition>),
    /// Question about unsigned integer fields of full-context label
    UnsignedRange(Question<UnsignedRangePosition>),
    /// Question about boolean fields of full-context label
    Boolean(Question<BooleanPosition>),
    /// Question about numerical categorical fields of full-context label
    Category(Question<CategoryPosition>),
    /// Question about undefined (always `xx`) fields of full-context label
    Undefined(Question<UndefinedPotision>),
}

/// A question as a mathematical value: its position, and its range where it
/// has one.
pub enum QuestionModel {
    Phone(PhonePosition, Option<Seq<Seq<char>>>),
    SignedRange(SignedRangePosition, Option<Span>),
    UnsignedRange(UnsignedRangePosition, Option<Span>),
    Boolean(BooleanPosition, Option<bool>),
    Category(CategoryPosition, Option<Seq<u8>>),
    Undefined(UndefinedPotision, Option<()>),
}

impl View for AllQuestion {
    type V = QuestionModel;

    open spec fn view(&self) -> QuestionModel {
        match self {
            AllQuestion::Phone(q) => QuestionModel::Phone(q.position, q.model()),
            AllQuestion::SignedRange(q) => QuestionModel::SignedRange(q.position, q.model()),
            AllQuestion::UnsignedRange(q) => QuestionModel::UnsignedRange(q.position, q.model()),
            AllQuestion::Boolean(q) => QuestionModel::Boolean(q.position, q.model()),
            AllQuestion::Category(q) => QuestionModel::Category(q.position, q.model()),
            AllQuestion::Undefined(q) => QuestionModel::Undefined(q.position, q.model()),
        }
    }
}

impl Clone for AllQuestion {
    /// A copy of this question: the same position and the same range.
    fn clone(&self) -> (copy: Self)
        ensures
            copy@ == self@,
    {
        match self {
            AllQuestion::Phone(q) => {
                let range = match &q.range {
                    Some(phones) => {
                        let mut copies: Vec<String> = Vec::new();
                        let mut i: usize = 0;
                        while i < phones.len()
                            invariant
                                i <= phones.len(),
                                copies@ == phones@.take(i as int),
                            decreases phones.len() - i,
                        {
                            copies.push(phones[i].clone());
                            assert(copies@ =~= phones@.take(i + 1));
                            i = i + 1;
                        }
                        assert(phones@.take(i as int) =~= phones@);
                        Some(copies)
                    },
                    None => None,
                };
                AllQuestion::Phone(Question { position: q.position, range })
            },
            AllQuestion::SignedRange(q) => {
                let range = match &q.range {
                    Some(range) => Some(Range { start: range.start, end: range.end }),
                    None => None,
                };
                AllQuestion::SignedRange(Question { position: q.position, range })
            },
            AllQuestion::UnsignedRange(q) => {
                let range = match &q.range {
                    Some(range) => Some(Range { start: range.start, end: range.end }),
                    None => None,
                };
                AllQuestion::UnsignedRange(Question { position: q.position, range })
            },
            AllQuestion::Boolean(q) => AllQuestion::Boolean(
                Question { position: q.position, range: q.range },
            ),
            AllQuestion::Category(q) => {
                let range = match &q.range {
                    Some(values) => {
                        let mut copies: Vec<u8> = Vec::new();
                        let mut i: usize = 0;
                        while i < values.len()
                            invariant
                                i <= values.len(),
                                copies@ == values@.take(i as int),
                            decreases values.len() - i,
                        {
                            copies.push(values[i]);
                            assert(copies@ =~= values@.take(i + 1));
                            i = i + 1;
                        }
                        assert(values@.take(i as int) =~= values@);
                        Some(copies)
                    },
                    None => None,
                };
                AllQuestion::Category(Question { position: q.position, range })
            },
            AllQuestion::Undefined(q) => AllQuestion::Undefined(
                Question { position: q.position, range: q.range },
            ),
        }
    }
}

/// What one pattern of a question says, `first` being the position of the
/// patterns before it: the pattern is cut, its range section must not be
/// empty, its delimiters are looked up, the position found must be the one of
/// the patterns before, and the pattern is held against the position.
pub open spec fn examine(pattern: Seq<char>, first: Option<AllPosition>) -> Result<
    (AllPosition, Seq<char>),
    Fault,
> {
    let split = split_of(pattern);
    if split.range.len() == 0 {
        Err(Fault::InvalidPosition(PositionError::EmptyRange))
    } else {
        match resolve(split) {
            Err(e) => Err(Fault::InvalidPosition(e)),
            Ok(position) => if first is Some && first != Some(position) {
                Err(Fault::PositionMismatch)
            } else {
                match verdict(split, position) {
                    Err(e) => Err(Fault::InvalidPosition(e)),
                    Ok(_) => Ok((position, split.range)),
                }
            },
        }
    }
}

/// The position that the patterns share and their range sections in order,
/// or the fault of the first pattern that has one.
pub open spec fn survey(patterns: Seq<Seq<char>>) -> Result<
    (Option<AllPosition>, Seq<Seq<char>>),
    Fault,
>
    decreases patterns.len(),
{
    if patterns.len() == 0 {
        Ok((None, Seq::empty()))
    } else {
        match survey(patterns.drop_last()) {
            Err(fault) => Err(fault),
            Ok((first, ranges)) => match examine(patterns.last(), first) {
                Err(fault) => Err(fault),
                Ok((position, range)) => Ok((Some(position), ranges.push(range))),
            },
        }
    }
}

/// The question on `position` that the range sections compile to.
pub open spec fn question_on(position: AllPosition, texts: Seq<Seq<char>>) -> Result<
    QuestionModel,
    Fault,
> {
    match position {
        AllPosition::Phone(p) => match Question::<PhonePosition>::compiled(p, texts) {
            Ok(range) => Ok(QuestionModel::Phone(p, range)),
            Err(fault) => Err(fault),
        },
        AllPosition::SignedRange(p) => match Question::<SignedRangePosition>::compiled(p, texts) {
            Ok(range) => Ok(QuestionModel::SignedRange(p, range)),
            Err(fault) => Err(fault),
        },
        AllPosition::UnsignedRange(p) => match Question::<UnsignedRangePosition>::compiled(
            p,
            texts,
        ) {
            Ok(range) => Ok(QuestionModel::UnsignedRange(p, range)),
            Err(fault) => Err(fault),
        },
        AllPosition::Boolean(p) => match Question::<BooleanPosition>::compiled(p, texts) {
            Ok(range) => Ok(QuestionModel::Boolean(p, range)),
            Err(fault) => Err(fault),
        },
        AllPosition::Category(p) => match Question::<CategoryPosition>::compiled(p, texts) {
            Ok(range) => Ok(QuestionModel::Category(p, range)),
            Err(fault) => Err(fault),
        },
        AllPosition::Undefined(p) => match Question::<UndefinedPotision>::compiled(p, texts) {
            Ok(range) => Ok(QuestionModel::Undefined(p, range)),
            Err(fault) => Err(fault),
        },
    }
}

/// The question that the patterns make: they have to point at one position,
/// and their range sections compile to its range.
pub open spec fn question_of(patterns: Seq<Seq<char>>) -> Result<QuestionModel, Fault> {
    match survey(patterns) {
        Err(fault) => Err(fault),
        Ok((None, _)) => Err(Fault::Empty),
        Ok((Some(position), texts)) => question_on(position, texts),
    }
}

/// Once a pattern has a fault, the patterns behind it do not change the outcome.
pub proof fn lemma_survey_fault_stays(patterns: Seq<Seq<char>>, n: int)
    requires
        0 <= n <= patterns.len(),
        survey(patterns.take(n)) is Err,
    ensures
        survey(patterns) == survey(patterns.take(n)),
    decreases patterns.len() - n,
{
    if n == patterns.len() {
        assert(patterns.take(n) =~= patterns);
    } else {
        assert(patterns.take(n + 1).drop_last() =~= patterns.take(n));
        lemma_survey_fault_stays(patterns, n + 1);
    }
}

impl QuestionMatcher for AllQuestion {
    open spec fn parsed_from(&self, patterns: Seq<Seq<char>>) -> bool {
        question_of(patterns) == Ok::<QuestionModel, Fault>(self@)
    }

    open spec fn rejected(patterns: Seq<Seq<char>>, fault: Fault) -> bool {
        question_of(patterns) == Err::<QuestionModel, Fault>(fault)
    }

    /// A question on an undefined field matches every label.
    open spec fn accepts(&self, label: &Label) -> bool {
        match self {
            AllQuestion::Phone(q) => q.accepts(label),
            AllQuestion::SignedRange(q) => q.accepts(label),
            AllQuestion::UnsignedRange(q) => q.accepts(label),
            AllQuestion::Boolean(q) => q.accepts(label),
            AllQuestion::Category(q) => q.accepts(label),
            AllQuestion::Undefined(q) => q.accepts(label),
        }
    }

    fn parse(patterns: &[&str]) -> (r: Result<Self, ParseError>) {
        let ghost texts = texts_of(patterns@);
        let mut first: Option<AllPosition> = None;
        let mut ranges: Vec<&str> = Vec::new();
        let mut i: usize = 0;
        assert(texts.take(0) =~= Seq::empty());
        assert(texts_of(ranges@) =~= Seq::empty());
        while i < patterns.len()
            invariant
                i <= patterns.len(),
                texts == texts_of(patterns@),
                survey(texts.take(i as int)) == Ok::<(Option<AllPosition>, Seq<Seq<char>>), Fault>(
                    (first, texts_of(ranges@)),
                ),
            decreases patterns.len() - i,
        {
            proof {
                assert(texts.take(i + 1).drop_last() =~= texts.take(i as int));
                assert(texts.take(i + 1).last() == patterns@[i as int]@);
            }
            let split = PositionSplit::new(patterns[i]);
            let range = match split.into_range() {
                Ok(range) => range,
                Err(e) => {
                    proof {
                        lemma_survey_fault_stays(texts, i + 1);
                    }
                    return Err(ParseError::InvalidPosition(e));
                },
            };
            let position = match split.match_position() {
                Ok(position) => position,
                Err(e) => {
                    proof {
                        lemma_survey_fault_stays(texts, i + 1);
                    }
                    return Err(ParseError::InvalidPosition(e));
                },
            };
            if let Some(expected) = first {
                if position != expected {
                    proof {
                        lemma_survey_fault_stays(texts, i + 1);
                    }
                    return Err(ParseError::PositionMismatch);
                }
            }
            match split.verify(position) {
                Ok(_) => {},
                Err(e) => {
                    proof {
                        lemma_survey_fault_stays(texts, i + 1);
                    }
                    return Err(ParseError::InvalidPosition(e));
                },
            }
            let ghost before = texts_of(ranges@);
            first = Some(position);
            ranges.push(range);
            assert(texts_of(ranges@) =~= before.push(range@));
            i = i + 1;
        }
        assert(texts.take(i as int) =~= texts);
        let position = match first {
            Some(position) => position,
            None => {
                return Err(ParseError::Empty);
            },
        };
        match position {
            AllPosition::Phone(p) => match Question::new(p, ranges.as_slice()) {
                Ok(q) => Ok(AllQuestion::Phone(q)),
                Err(e) => Err(e),
            },
            AllPosition::SignedRange(p) => match Question::new(p, ranges.as_slice()) {
                Ok(q) => Ok(AllQuestion::SignedRange(q)),
                Err(e) => Err(e),
            },
            AllPosition::UnsignedRange(p) => match Question::new(p, ranges.as_slice()) {
                Ok(q) => Ok(AllQuestion::UnsignedRange(q)),
                Err(e) => Err(e),
            },
            AllPosition::Boolean(p) => match Question::new(p, ranges.as_slice()) {
                Ok(q) => Ok(AllQuestion::Boolean(q)),
                Err(e) => Err(e),
            },
            AllPosition::Category(p) => match Question::new(p, ranges.as_slice()) {
                Ok(q) => Ok(AllQuestion::Category(q)),
                Err(e) => Err(e),
            },
            AllPosition::Undefined(p) => match Question::new(p, ranges.as_slice()) {
                Ok(q) => Ok(AllQuestion::Undefined(q)),
                Err(e) => Err(e),
            },
        }
    }

    fn test(&self, label: &Label) -> (r: bool)
        ensures
            self is Undefined ==> r,
    {
        match self {
            Self::Phone(q) => q.test(label),
            Self::SignedRange(q) => q.test(label),
            Self::UnsignedRange(q) => q.test(label),
            Self::Boolean(q) => q.test(label),
            Self::Category(q) => q.test(label),
            Self::Undefined(q) => q.test(label),
        }
    }
}

/// Parses the patterns of a question.
pub fn question(patterns: &[&str]) -> (r: Result<AllQuestion, ParseError>)
    ensures
        match r {
            Ok(q) => question_of(texts_of(patterns@)) == Ok::<QuestionModel, Fault>(q@),
            Err(e) => question_of(texts_of(patterns@)) == Err::<QuestionModel, Fault>(e@),
        },
{
    AllQuestion::parse(patterns)
}

impl Label {
    /// Whether this label matches the question.
    pub fn satisfies(&self, question: &AllQuestion) -> (r: bool)
        ensures
            r == question.accepts(self),
    {
        question.test(self)
    }
}

} // verus!
