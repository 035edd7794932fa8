//! The positions of a label that a question can constrain, by kind of value.

use vstd::prelude::*;
use std::ops::Range;
use crate::error::{Fault, ParseError};
use crate::label::Label;
use crate::number::{
    decimal_i8, decimal_u8, documented_fault, error_kind, i8_fault, parse_i8, parse_u8, u8_fault,
};
use crate::span::{
    all_inhabited, arranges, folds_to, merge_is_union, merge_ranges, span_of, spans_of, union_of,
    Span,
};
use crate::text::chars_of;

verus! {

/// Every position, under its kind.
#[derive(Debug, Clone, Copy, PartialEq, Eq, Structural)]
pub enum AllPosition {
    /// Phone fields
    Phone(PhonePosition),
    /// Signed integer fields
    SignedRange(SignedRangePosition),
    /// Unsigned integer fields
    UnsignedRange(UnsignedRangePosition),
    /// Boolean fields
    Boolean(BooleanPosition),
    /// Numerical categorical fields
    Category(CategoryPosition),
    /// Undefined (always `xx`) fields
    Undefined(UndefinedPotision),
}

/// Positions of phone fields
#[derive(Debug, Clone, Copy, PartialEq, Eq, Structural)]
#[allow(missing_docs)]
pub enum PhonePosition {
    P1,
    P2,
    P3,
    P4,
    P5,
}

/// Positions with signed integer type
#[derive(Debug, Clone, Copy, PartialEq, Eq, Structural)]
#[allow(missing_docs)]
pub enum SignedRangePosition {
    A1,
}

/// Positions with unsigned integer type
#[derive(Debug, Clone, Copy, PartialEq, Eq, Structural)]
#[allow(missing_docs)]
pub enum UnsignedRangePosition {
    A2,
    A3,
    E1,
    E2,
    F1,
    F2,
    F5,
    F6,
    F7,
    F8,
    G1,
    G2,
    H1,
    H2,
    I1,
    I2,
    I3,
    I4,
    I5,
    I6,
    I7,
    I8,
    J1,
    J2,
    K1,
    K2,
    K3,
}

/// Positions with boolean type
#[derive(Debug, Clone, Copy, PartialEq, Eq, Structural)]
#[allow(missing_docs)]
pub enum BooleanPosition {
    E3,
    E5,
    F3,
    G3,
    G5,
}

/// Positions with numerical representations of categorical value
#[derive(Debug, Clone, Copy, PartialEq, Eq, Structural)]
#[allow(missing_docs)]
pub enum CategoryPosition {
    B1,
    B2,
    B3,
    C1,
    C2,
    C3,
    D1,
    D2,
    D3,
}

/// Positions that are always `xx`
#[derive(Debug, Clone, Copy, PartialEq, Eq, Structural)]
#[allow(missing_docs)]
pub enum UndefinedPotision {
    E4,
    F4,
    G4,
}

/// The range sections of a question's patterns, as sequences of characters.
pub open spec fn texts_of(ranges: Seq<&str>) -> Seq<Seq<char>> {
    Seq::new(ranges.len(), |i: int| ranges[i]@)
}

/// The values of the items in order, or the fault of the first item that has one.
pub open spec fn gather<T>(items: Seq<Result<T, Fault>>) -> Result<Seq<T>, Fault>
    decreases items.len(),
{
    if items.len() == 0 {
        Ok(Seq::empty())
    } else {
        match gather(items.drop_last()) {
            Err(fault) => Err(fault),
            Ok(values) => match items.last() {
                Ok(value) => Ok(values.push(value)),
                Err(fault) => Err(fault),
            },
        }
    }
}

/// What one kind of position makes of range sections and of labels.
pub trait Position: Sized {
    /// The type of the field that the position points at.
    type Target;

    /// The type of a compiled range.
    type Range;

    /// What a compiled range is, as a mathematical value.
    type Model;

    /// The mathematical value of a compiled range.
    spec fn model(range: &Self::Range) -> Self::Model;

    /// What the range sections compile to.
    spec fn compile(&self, texts: Seq<Seq<char>>) -> Result<Self::Model, Fault>;

    /// The field at this position, where the label defines it.
    spec fn field(&self, label: &Label) -> Option<Self::Target>;

    /// Whether the range admits the value of a field.
    spec fn admits(&self, range: &Self::Range, target: &Self::Target) -> bool;

    /// Whether no label defines the field at this position.
    spec fn never_defined(&self) -> bool;

    /// Compiles the range sections of a question's patterns.
    fn range(&self, ranges: &[&str]) -> (r: Result<Self::Range, ParseError>)
        ensures
            match r {
                Ok(range) => self.compile(texts_of(ranges@)) == Ok::<Self::Model, Fault>(
                    Self::model(&range),
                ),
                Err(e) => self.compile(texts_of(ranges@)) == Err::<Self::Model, Fault>(e@),
            },
    ;

    /// The field of the label that this position points at.
    fn get<'a>(&self, label: &'a Label) -> (r: Option<&'a Self::Target>)
        ensures
            match r {
                Some(target) => self.field(label) == Some(*target),
                None => self.field(label) is None,
            },
    ;

    /// Whether the range admits the value of a field.
    fn test(&self, range: &Self::Range, target: &Self::Target) -> (r: bool)
        ensures
            r == self.admits(range, target),
    ;

    /// Whether no label defines the field at this position.
    fn is_never_defined(&self) -> (r: bool)
        ensures
            r == self.never_defined(),
    ;
}

/// The interval that the range section of an unsigned field stands for: `?`
/// for one digit, digits and `?` for a decade, or a number for itself.
pub open spec fn unsigned_span(text: Seq<char>) -> Result<Span, Fault> {
    if text == seq!['?'] {
        Ok(Span { start: 0, end: 10 })
    } else if text.len() > 0 && text.last() == '?' {
        match decimal_u8(text.drop_last()) {
            Some(n) => Ok(Span { start: n * 10, end: n * 10 + 10 }),
            None => Err(Fault::FailWildcard(u8_fault(text.drop_last()))),
        }
    } else {
        match decimal_u8(text) {
            Some(n) => Ok(Span { start: n as int, end: n + 1 }),
            None => Err(Fault::FailLiteral(u8_fault(text))),
        }
    }
}

/// The interval that the range section of a signed field stands for. A minus
/// before one `?` stands for -9 to 0, before two for -99 to -10. Digits and
/// `?` stand for a decade, which lies below zero where a minus stands before
/// the digits: `-1?` stands for -19 to -10.
pub open spec fn signed_span(text: Seq<char>) -> Result<Span, Fault> {
    if text == seq!['-', '?', '?'] {
        Ok(Span { start: -99, end: -9 })
    } else if text == seq!['-', '?'] {
        Ok(Span { start: -9, end: 1 })
    } else if text == seq!['?'] {
        Ok(Span { start: 0, end: 10 })
    } else if text.len() > 0 && text.last() == '?' {
        match decimal_i8(text.drop_last()) {
            Some(n) => if text[0] == '-' {
                Ok(Span { start: n * 10 - 9, end: n * 10 + 1 })
            } else {
                Ok(Span { start: n * 10, end: n * 10 + 10 })
            },
            None => Err(Fault::FailWildcard(i8_fault(text.drop_last()))),
        }
    } else {
        match decimal_i8(text) {
            Some(n) => Ok(Span { start: n as int, end: n + 1 }),
            None => Err(Fault::FailLiteral(i8_fault(text))),
        }
    }
}

/// Compiles the range section of a signed field. Where the text is no
/// number, the error holds the cause that std gives, of the documented kind
/// where std documents one.
pub fn range_i8(s: &str) -> (r: Result<Range<i16>, ParseError>)
    ensures
        match r {
            Ok(range) => signed_span(s@) == Ok::<Span, Fault>(span_of(range)),
            Err(e) => signed_span(s@) == Err::<Span, Fault>(e@),
        },
        r matches Err(ParseError::FailLiteral(e)) ==> (documented_fault(
            s@,
            true,
            -128,
            127,
        ) matches Some(kind) ==> error_kind(e) == kind),
        r matches Err(ParseError::FailWildcard(e)) ==> (documented_fault(
            s@.drop_last(),
            true,
            -128,
            127,
        ) matches Some(kind) ==> error_kind(e) == kind),
{
    let chars = chars_of(s);
    let n = chars.len();
    if n == 3 && chars[0] == '-' && chars[1] == '?' && chars[2] == '?' {
        assert(s@ =~= seq!['-', '?', '?']);
        return Ok(Range { start: -99, end: -9 });
    }
    if n == 2 && chars[0] == '-' && chars[1] == '?' {
        assert(s@ =~= seq!['-', '?']);
        return Ok(Range { start: -9, end: 1 });
    }
    if n == 1 && chars[0] == '?' {
        assert(s@ =~= seq!['?']);
        return Ok(Range { start: 0, end: 10 });
    }
    if n > 0 && chars[n - 1] == '?' {
        let digits = s.substring_char(0, n - 1);
        assert(digits@ =~= s@.drop_last());
        match parse_i8(digits) {
            Ok(d) => {
                let d: i16 = d as i16;
                if chars[0] == '-' {
                    Ok(Range { start: d * 10 - 9, end: d * 10 + 1 })
                } else {
                    Ok(Range { start: d * 10, end: d * 10 + 10 })
                }
            },
            Err(e) => Err(ParseError::FailWildcard(e)),
        }
    } else {
        match parse_i8(s) {
            Ok(d) => {
                let d: i16 = d as i16;
                Ok(Range { start: d, end: d + 1 })
            },
            Err(e) => Err(ParseError::FailLiteral(e)),
        }
    }
}

/// Compiles the range section of an unsigned field. Where the text is no
/// number, the error holds the cause that std gives, of the documented kind
/// where std documents one.
pub fn range_u8(s: &str) -> (r: Result<Range<u16>, ParseError>)
    ensures
        match r {
            Ok(range) => unsigned_span(s@) == Ok::<Span, Fault>(span_of(range)),
            Err(e) => unsigned_span(s@) == Err::<Span, Fault>(e@),
        },
        r matches Err(ParseError::FailLiteral(e)) ==> (documented_fault(
            s@,
            false,
            0,
            255,
        ) matches Some(kind) ==> error_kind(e) == kind),
        r matches Err(ParseError::FailWildcard(e)) ==> (documented_fault(
            s@.drop_last(),
            false,
            0,
            255,
        ) matches Some(kind) ==> error_kind(e) == kind),
{
    let chars = chars_of(s);
    let n = chars.len();
    if n == 1 && chars[0] == '?' {
        assert(s@ =~= seq!['?']);
        return Ok(Range { start: 0, end: 10 });
    }
    if n > 0 && chars[n - 1] == '?' {
        let digits = s.substring_char(0, n - 1);
        assert(digits@ =~= s@.drop_last());
        match parse_u8(digits) {
            Ok(d) => {
                let d: u16 = d as u16;
                Ok(Range { start: d * 10, end: d * 10 + 10 })
            },
            Err(e) => Err(ParseError::FailWildcard(e)),
        }
    } else {
        match parse_u8(s) {
            Ok(d) => {
                let d: u16 = d as u16;
                Ok(Range { start: d, end: d + 1 })
            },
            Err(e) => Err(ParseError::FailLiteral(e)),
        }
    }
}

/// The texts of strings, in order.
pub open spec fn views_of(strings: Seq<String>) -> Seq<Seq<char>> {
    Seq::new(strings.len(), |i: int| strings[i]@)
}

impl Position for PhonePosition {
    type Target = String;

    type Range = Vec<String>;

    type Model = Seq<Seq<char>>;

    open spec fn model(range: &Vec<String>) -> Seq<Seq<char>> {
        views_of(range@)
    }

    /// Each range section is a phoneme: the range is the list of them.
    open spec fn compile(&self, texts: Seq<Seq<char>>) -> Result<Seq<Seq<char>>, Fault> {
        Ok(texts)
    }

    open spec fn field(&self, label: &Label) -> Option<String> {
        match self {
            Self::P1 => label.phoneme.p2,
            Self::P2 => label.phoneme.p1,
            Self::P3 => label.phoneme.c,
            Self::P4 => label.phoneme.n1,
            Self::P5 => label.phoneme.n2,
        }
    }

    /// The phoneme is one of the list.
    open spec fn admits(&self, range: &Vec<String>, target: &String) -> bool {
        views_of(range@).contains(target@)
    }

    open spec fn never_defined(&self) -> bool {
        false
    }

    fn range(&self, ranges: &[&str]) -> (r: Result<Vec<String>, ParseError>) {
        let mut phones: Vec<String> = Vec::new();
        let mut i: usize = 0;
        while i < ranges.len()
            invariant
                i <= ranges.len(),
                views_of(phones@) == texts_of(ranges@).take(i as int),
            decreases ranges.len() - i,
        {
            let ghost before = phones@;
            let phone = ranges[i].to_owned();
            phones.push(phone);
            assert(views_of(phones@) =~= views_of(before).push(phone@));
            assert(texts_of(ranges@).take(i + 1) =~= texts_of(ranges@).take(i as int).push(
                ranges@[i as int]@,
            ));
            i = i + 1;
        }
        assert(texts_of(ranges@).take(i as int) =~= texts_of(ranges@));
        Ok(phones)
    }

    fn get<'a>(&self, label: &'a Label) -> (r: Option<&'a String>) {
        match self {
            Self::P1 => label.phoneme.p2.as_ref(),
            Self::P2 => label.phoneme.p1.as_ref(),
            Self::P3 => label.phoneme.c.as_ref(),
            Self::P4 => label.phoneme.n1.as_ref(),
            Self::P5 => label.phoneme.n2.as_ref(),
        }
    }

    fn test(&self, range: &Vec<String>, target: &String) -> (r: bool) {
        let mut i: usize = 0;
        while i < range.len()
            invariant
                i <= range.len(),
                forall|k: int| 0 <= k < i ==> range@[k]@ != target@,
            decreases range.len() - i,
        {
            if range[i] == *target {
                assert(views_of(range@)[i as int] == target@);
                return true;
            }
            i = i + 1;
        }
        assert(!views_of(range@).contains(target@)) by {
            if views_of(range@).contains(target@) {
                let k = choose|k: int| 0 <= k < range@.len() && views_of(range@)[k] == target@;
                assert(range@[k]@ != target@);
            }
        }
        false
    }

    fn is_never_defined(&self) -> (r: bool) {
        false
    }
}

/// The interval of a range section of a signed field holds an integer.
proof fn lemma_signed_inhabited(text: Seq<char>)
    ensures
        signed_span(text) matches Ok(span) ==> span.inhabited(),
{
}

/// The interval of a range section of an unsigned field holds an integer.
proof fn lemma_unsigned_inhabited(text: Seq<char>)
    ensures
        unsigned_span(text) matches Ok(span) ==> span.inhabited(),
{
}

/// What the range sections of a numerical field compile to, from the interval
/// of each: the union of the intervals, which has to be an interval itself.
pub open spec fn compile_spans(parts: Seq<Result<Span, Fault>>) -> Result<Span, Fault> {
    match gather(parts) {
        Err(fault) => Err(fault),
        Ok(spans) => if spans.len() == 0 {
            Err(Fault::Empty)
        } else {
            match union_of(spans) {
                Some(span) => Ok(span),
                None => Err(Fault::IncontinuousRange),
            }
        },
    }
}

impl Position for SignedRangePosition {
    type Target = i8;

    type Range = Range<i16>;

    type Model = Span;

    open spec fn model(range: &Range<i16>) -> Span {
        span_of(*range)
    }

    open spec fn compile(&self, texts: Seq<Seq<char>>) -> Result<Span, Fault> {
        compile_spans(Seq::new(texts.len(), |i: int| signed_span(texts[i])))
    }

    open spec fn field(&self, label: &Label) -> Option<i8> {
        match self {
            Self::A1 => match label.mora {
                Some(b) => Some(b.relative_accent_position),
                None => None,
            },
        }
    }

    /// The value lies in the interval.
    open spec fn admits(&self, range: &Range<i16>, target: &i8) -> bool {
        span_of(*range).holds(*target as int)
    }

    open spec fn never_defined(&self) -> bool {
        false
    }

    fn range(&self, ranges: &[&str]) -> (r: Result<Range<i16>, ParseError>) {
        let ghost parts = Seq::new(texts_of(ranges@).len(), |i: int| signed_span(texts_of(ranges@)[i]));
        let mut parsed: Vec<Range<i16>> = Vec::new();
        let mut i: usize = 0;
        assert(parts.take(0) =~= Seq::empty());
        assert(spans_of(parsed@) =~= Seq::empty());
        while i < ranges.len()
            invariant
                i <= ranges.len(),
                parts == Seq::new(
                    texts_of(ranges@).len(),
                    |i: int| signed_span(texts_of(ranges@)[i]),
                ),
                gather(parts.take(i as int)) == Ok::<Seq<Span>, Fault>(spans_of(parsed@)),
                parsed.len() == i,
                all_inhabited(spans_of(parsed@)),
            decreases ranges.len() - i,
        {
            proof {
                assert(parts.take(i + 1).drop_last() =~= parts.take(i as int));
                assert(parts.take(i + 1).last() == signed_span(ranges@[i as int]@));
                lemma_signed_inhabited(ranges@[i as int]@);
            }
            match range_i8(ranges[i]) {
                Ok(range) => {
                    let ghost before = spans_of(parsed@);
                    parsed.push(range);
                    assert(spans_of(parsed@) =~= before.push(span_of(range)));
                },
                Err(e) => {
                    proof {
                        lemma_gather_fault_stays(parts, i + 1);
                    }
                    return Err(e);
                },
            }
            i = i + 1;
        }
        assert(parts.take(i as int) =~= parts);
        let ghost spans = spans_of(parsed@);
        let merged = merge_ranges(parsed);
        proof {
            if spans.len() > 0 {
                let s = choose|s: Seq<Span>| #[trigger] arranges(s, spans) && folds_to(s, merged);
                merge_is_union(s, spans);
            }
        }
        merged
    }

    fn get<'a>(&self, label: &'a Label) -> (r: Option<&'a i8>) {
        match self {
            Self::A1 => match &label.mora {
                Some(b) => Some(&b.relative_accent_position),
                None => None,
            },
        }
    }

    fn test(&self, range: &Range<i16>, target: &i8) -> (r: bool) {
        let value: i16 = *target as i16;
        range.start <= value && value < range.end
    }

    fn is_never_defined(&self) -> (r: bool) {
        false
    }
}

impl Position for UnsignedRangePosition {
    type Target = u8;

    type Range = Range<u16>;

    type Model = Span;

    open spec fn model(range: &Range<u16>) -> Span {
        span_of(*range)
    }

    open spec fn compile(&self, texts: Seq<Seq<char>>) -> Result<Span, Fault> {
        compile_spans(Seq::new(texts.len(), |i: int| unsigned_span(texts[i])))
    }

    open spec fn field(&self, label: &Label) -> Option<u8> {
        match self {
            Self::A2 => match label.mora {
                Some(b) => Some(b.position_forward),
                None => None,
            },
            Self::A3 => match label.mora {
                Some(b) => Some(b.position_backward),
                None => None,
            },
            Self::E1 => match label.accent_phrase_prev {
                Some(b) => Some(b.mora_count),
                None => None,
            },
            Self::E2 => match label.accent_phrase_prev {
                Some(b) => Some(b.accent_position),
                None => None,
            },
            Self::F1 => match label.accent_phrase_curr {
                Some(b) => Some(b.mora_count),
                None => None,
            },
            Self::F2 => match label.accent_phrase_curr {
                Some(b) => Some(b.accent_position),
                None => None,
            },
            Self::F5 => match label.accent_phrase_curr {
                Some(b) => Some(b.accent_phrase_position_forward),
                None => None,
            },
            Self::F6 => match label.accent_phrase_curr {
                Some(b) => Some(b.accent_phrase_position_backward),
                None => None,
            },
            Self::F7 => match label.accent_phrase_curr {
                Some(b) => Some(b.mora_position_forward),
                None => None,
            },
            Self::F8 => match label.accent_phrase_curr {
                Some(b) => Some(b.mora_position_backward),
                None => None,
            },
            Self::G1 => match label.accent_phrase_next {
                Some(b) => Some(b.mora_count),
                None => None,
            },
            Self::G2 => match label.accent_phrase_next {
                Some(b) => Some(b.accent_position),
                None => None,
            },
            Self::H1 => match label.breath_group_prev {
                Some(b) => Some(b.accent_phrase_count),
                None => None,
            },
            Self::H2 => match label.breath_group_prev {
                Some(b) => Some(b.mora_count),
                None => None,
            },
            Self::I1 => match label.breath_group_curr {
                Some(b) => Some(b.accent_phrase_count),
                None => None,
            },
            Self::I2 => match label.breath_group_curr {
                Some(b) => Some(b.mora_count),
                None => None,
            },
            Self::I3 => match label.breath_group_curr {
                Some(b) => Some(b.breath_group_position_forward),
                None => None,
            },
            Self::I4 => match label.breath_group_curr {
                Some(b) => Some(b.breath_group_position_backward),
                None => None,
            },
            Self::I5 => match label.breath_group_curr {
                Some(b) => Some(b.accent_phrase_position_forward),
                None => None,
            },
            Self::I6 => match label.breath_group_curr {
                Some(b) => Some(b.accent_phrase_position_backward),
                None => None,
            },
            Self::I7 => match label.breath_group_curr {
                Some(b) => Some(b.mora_position_forward),
                None => None,
            },
            Self::I8 => match label.breath_group_curr {
                Some(b) => Some(b.mora_position_backward),
                None => None,
            },
            Self::J1 => match label.breath_group_next {
                Some(b) => Some(b.accent_phrase_count),
                None => None,
            },
            Self::J2 => match label.breath_group_next {
                Some(b) => Some(b.mora_count),
                None => None,
            },
            Self::K1 => Some(label.utterance.breath_group_count),
            Self::K2 => Some(label.utterance.accent_phrase_count),
            Self::K3 => Some(label.utterance.mora_count),
        }
    }

    /// The value lies in the interval.
    open spec fn admits(&self, range: &Range<u16>, target: &u8) -> bool {
        span_of(*range).holds(*target as int)
    }

    open spec fn never_defined(&self) -> bool {
        false
    }

    fn range(&self, ranges: &[&str]) -> (r: Result<Range<u16>, ParseError>) {
        let ghost parts = Seq::new(
            texts_of(ranges@).len(),
            |i: int| unsigned_span(texts_of(ranges@)[i]),
        );
        let mut parsed: Vec<Range<u16>> = Vec::new();
        let mut i: usize = 0;
        assert(parts.take(0) =~= Seq::empty());
        assert(spans_of(parsed@) =~= Seq::empty());
        while i < ranges.len()
            invariant
                i <= ranges.len(),
                parts == Seq::new(
                    texts_of(ranges@).len(),
                    |i: int| unsigned_span(texts_of(ranges@)[i]),
                ),
                gather(parts.take(i as int)) == Ok::<Seq<Span>, Fault>(spans_of(parsed@)),
                parsed.len() == i,
                all_inhabited(spans_of(parsed@)),
            decreases ranges.len() - i,
        {
            proof {
                assert(parts.take(i + 1).drop_last() =~= parts.take(i as int));
                assert(parts.take(i + 1).last() == unsigned_span(ranges@[i as int]@));
                lemma_unsigned_inhabited(ranges@[i as int]@);
            }
            match range_u8(ranges[i]) {
                Ok(range) => {
                    let ghost before = spans_of(parsed@);
                    parsed.push(range);
                    assert(spans_of(parsed@) =~= before.push(span_of(range)));
                },
                Err(e) => {
                    proof {
                        lemma_gather_fault_stays(parts, i + 1);
                    }
                    return Err(e);
                },
            }
            i = i + 1;
        }
        assert(parts.take(i as int) =~= parts);
        let ghost spans = spans_of(parsed@);
        let merged = merge_ranges(parsed);
        proof {
            if spans.len() > 0 {
                let s = choose|s: Seq<Span>| #[trigger] arranges(s, spans) && folds_to(s, merged);
                merge_is_union(s, spans);
            }
        }
        merged
    }

    fn get<'a>(&self, label: &'a Label) -> (r: Option<&'a u8>) {
        match self {
            Self::A2 => match &label.mora {
                Some(b) => Some(&b.position_forward),
                None => None,
            },
            Self::A3 => match &label.mora {
                Some(b) => Some(&b.position_backward),
                None => None,
            },
            Self::E1 => match &label.accent_phrase_prev {
                Some(b) => Some(&b.mora_count),
                None => None,
            },
            Self::E2 => match &label.accent_phrase_prev {
                Some(b) => Some(&b.accent_position),
                None => None,
            },
            Self::F1 => match &label.accent_phrase_curr {
                Some(b) => Some(&b.mora_count),
                None => None,
            },
            Self::F2 => match &label.accent_phrase_curr {
                Some(b) => Some(&b.accent_position),
                None => None,
            },
            Self::F5 => match &label.accent_phrase_curr {
                Some(b) => Some(&b.accent_phrase_position_forward),
                None => None,
            },
            Self::F6 => match &label.accent_phrase_curr {
                Some(b) => Some(&b.accent_phrase_position_backward),
                None => None,
            },
            Self::F7 => match &label.accent_phrase_curr {
                Some(b) => Some(&b.mora_position_forward),
                None => None,
            },
            Self::F8 => match &label.accent_phrase_curr {
                Some(b) => Some(&b.mora_position_backward),
                None => None,
            },
            Self::G1 => match &label.accent_phrase_next {
                Some(b) => Some(&b.mora_count),
                None => None,
            },
            Self::G2 => match &label.accent_phrase_next {
                Some(b) => Some(&b.accent_position),
                None => None,
            },
            Self::H1 => match &label.breath_group_prev {
                Some(b) => Some(&b.accent_phrase_count),
                None => None,
            },
            Self::H2 => match &label.breath_group_prev {
                Some(b) => Some(&b.mora_count),
                None => None,
            },
            Self::I1 => match &label.breath_group_curr {
                Some(b) => Some(&b.accent_phrase_count),
                None => None,
            },
            Self::I2 => match &label.breath_group_curr {
                Some(b) => Some(&b.mora_count),
                None => None,
            },
            Self::I3 => match &label.breath_group_curr {
                Some(b) => Some(&b.breath_group_position_forward),
                None => None,
            },
            Self::I4 => match &label.breath_group_curr {
                Some(b) => Some(&b.breath_group_position_backward),
                None => None,
            },
            Self::I5 => match &label.breath_group_curr {
                Some(b) => Some(&b.accent_phrase_position_forward),
                None => None,
            },
            Self::I6 => match &label.breath_group_curr {
                Some(b) => Some(&b.accent_phrase_position_backward),
                None => None,
            },
            Self::I7 => match &label.breath_group_curr {
                Some(b) => Some(&b.mora_position_forward),
                None => None,
            },
            Self::I8 => match &label.breath_group_curr {
                Some(b) => Some(&b.mora_position_backward),
                None => None,
            },
            Self::J1 => match &label.breath_group_next {
                Some(b) => Some(&b.accent_phrase_count),
                None => None,
            },
            Self::J2 => match &label.breath_group_next {
                Some(b) => Some(&b.mora_count),
                None => None,
            },
            Self::K1 => Some(&label.utterance.breath_group_count),
            Self::K2 => Some(&label.utterance.accent_phrase_count),
            Self::K3 => Some(&label.utterance.mora_count),
        }
    }

    fn test(&self, range: &Range<u16>, target: &u8) -> (r: bool) {
        let value: u16 = *target as u16;
        range.start <= value && value < range.end
    }

    fn is_never_defined(&self) -> (r: bool) {
        false
    }
}

/// Once an item has a fault, the items behind it do not change the outcome.
pub proof fn lemma_gather_fault_stays<T>(items: Seq<Result<T, Fault>>, n: int)
    requires
        0 <= n <= items.len(),
        gather(items.take(n)) is Err,
    ensures
        gather(items) == gather(items.take(n)),
    decreases items.len() - n,
{
    if n == items.len() {
        assert(items.take(n) =~= items);
    } else {
        assert(items.take(n + 1).drop_last() =~= items.take(n));
        lemma_gather_fault_stays(items, n + 1);
    }
}

impl BooleanPosition {
    /// Whether the text of a label writes this field with inverted polarity.
    pub open spec fn inverted(&self) -> bool {
        *self == Self::E5 || *self == Self::G5
    }
}

impl Position for BooleanPosition {
    type Target = bool;

    type Range = bool;

    type Model = bool;

    open spec fn model(range: &bool) -> bool {
        *range
    }

    /// The first range section decides: `1` stands for true and `0` for false,
    /// the other way round where the field is inverted.
    open spec fn compile(&self, texts: Seq<Seq<char>>) -> Result<bool, Fault> {
        if texts.len() == 0 {
            Err(Fault::Empty)
        } else if texts[0] == seq!['0'] {
            Ok(self.inverted())
        } else if texts[0] == seq!['1'] {
            Ok(!self.inverted())
        } else {
            Err(Fault::InvalidBoolean(texts[0]))
        }
    }

    open spec fn field(&self, label: &Label) -> Option<bool> {
        match self {
            Self::E3 => match label.accent_phrase_prev {
                Some(b) => Some(b.is_interrogative),
                None => None,
            },
            Self::E5 => match label.accent_phrase_prev {
                Some(b) => b.is_pause_insertion,
                None => None,
            },
            Self::F3 => match label.accent_phrase_curr {
                Some(b) => Some(b.is_interrogative),
                None => None,
            },
            Self::G3 => match label.accent_phrase_next {
                Some(b) => Some(b.is_interrogative),
                None => None,
            },
            Self::G5 => match label.accent_phrase_next {
                Some(b) => b.is_pause_insertion,
                None => None,
            },
        }
    }

    /// The field has the value asked for.
    open spec fn admits(&self, range: &bool, target: &bool) -> bool {
        *range == *target
    }

    open spec fn never_defined(&self) -> bool {
        false
    }

    fn range(&self, ranges: &[&str]) -> (r: Result<bool, ParseError>) {
        if ranges.len() == 0 {
            return Err(ParseError::Empty);
        }
        let first = ranges[0];
        let field_false = match self {
            Self::E5 | Self::G5 => true,
            _ => false,
        };
        let chars = chars_of(first);
        if chars.len() == 1 && chars[0] == '0' {
            assert(first@ =~= seq!['0']);
            Ok(field_false)
        } else if chars.len() == 1 && chars[0] == '1' {
            assert(first@ =~= seq!['1']);
            Ok(!field_false)
        } else {
            Err(ParseError::InvalidBoolean(first.to_owned()))
        }
    }

    fn get<'a>(&self, label: &'a Label) -> (r: Option<&'a bool>) {
        match self {
            Self::E3 => match &label.accent_phrase_prev {
                Some(b) => Some(&b.is_interrogative),
                None => None,
            },
            Self::E5 => match &label.accent_phrase_prev {
                Some(b) => b.is_pause_insertion.as_ref(),
                None => None,
            },
            Self::F3 => match &label.accent_phrase_curr {
                Some(b) => Some(&b.is_interrogative),
                None => None,
            },
            Self::G3 => match &label.accent_phrase_next {
                Some(b) => Some(&b.is_interrogative),
                None => None,
            },
            Self::G5 => match &label.accent_phrase_next {
                Some(b) => b.is_pause_insertion.as_ref(),
                None => None,
            },
        }
    }

    fn test(&self, range: &bool, target: &bool) -> (r: bool) {
        *range == *target
    }

    fn is_never_defined(&self) -> (r: bool) {
        false
    }
}

/// The number that the range section of a categorical field stands for.
pub open spec fn category_value(text: Seq<char>) -> Result<u8, Fault> {
    match decimal_u8(text) {
        Some(n) => Ok(n),
        None => Err(Fault::FailLiteral(u8_fault(text))),
    }
}

impl Position for CategoryPosition {
    type Target = u8;

    type Range = Vec<u8>;

    type Model = Seq<u8>;

    open spec fn model(range: &Vec<u8>) -> Seq<u8> {
        range@
    }

    /// Each range section is a number: the range is the list of them.
    open spec fn compile(&self, texts: Seq<Seq<char>>) -> Result<Seq<u8>, Fault> {
        gather(Seq::new(texts.len(), |i: int| category_value(texts[i])))
    }

    open spec fn field(&self, label: &Label) -> Option<u8> {
        match self {
            Self::B1 => match label.word_prev {
                Some(b) => b.pos,
                None => None,
            },
            Self::B2 => match label.word_prev {
                Some(b) => b.ctype,
                None => None,
            },
            Self::B3 => match label.word_prev {
                Some(b) => b.cform,
                None => None,
            },
            Self::C1 => match label.word_curr {
                Some(b) => b.pos,
                None => None,
            },
            Self::C2 => match label.word_curr {
                Some(b) => b.ctype,
                None => None,
            },
            Self::C3 => match label.word_curr {
                Some(b) => b.cform,
                None => None,
            },
            Self::D1 => match label.word_next {
                Some(b) => b.pos,
                None => None,
            },
            Self::D2 => match label.word_next {
                Some(b) => b.ctype,
                None => None,
            },
            Self::D3 => match label.word_next {
                Some(b) => b.cform,
                None => None,
            },
        }
    }

    /// The value is one of the list.
    open spec fn admits(&self, range: &Vec<u8>, target: &u8) -> bool {
        range@.contains(*target)
    }

    open spec fn never_defined(&self) -> bool {
        false
    }

    fn range(&self, ranges: &[&str]) -> (r: Result<Vec<u8>, ParseError>) {
        let ghost parts = Seq::new(
            texts_of(ranges@).len(),
            |i: int| category_value(texts_of(ranges@)[i]),
        );
        let mut values: Vec<u8> = Vec::new();
        let mut i: usize = 0;
        while i < ranges.len()
            invariant
                i <= ranges.len(),
                parts == Seq::new(
                    texts_of(ranges@).len(),
                    |i: int| category_value(texts_of(ranges@)[i]),
                ),
                gather(parts.take(i as int)) == Ok::<Seq<u8>, Fault>(values@),
            decreases ranges.len() - i,
        {
            proof {
                assert(parts.take(i + 1).drop_last() =~= parts.take(i as int));
                assert(parts.take(i + 1).last() == category_value(ranges@[i as int]@));
            }
            match parse_u8(ranges[i]) {
                Ok(value) => {
                    values.push(value);
                },
                Err(e) => {
                    proof {
                        lemma_gather_fault_stays(parts, i + 1);
                    }
                    return Err(ParseError::FailLiteral(e));
                },
            }
            i = i + 1;
        }
        assert(parts.take(i as int) =~= parts);
        Ok(values)
    }

    fn get<'a>(&self, label: &'a Label) -> (r: Option<&'a u8>) {
        match self {
            Self::B1 => match &label.word_prev {
                Some(b) => b.pos.as_ref(),
                None => None,
            },
            Self::B2 => match &label.word_prev {
                Some(b) => b.ctype.as_ref(),
                None => None,
            },
            Self::B3 => match &label.word_prev {
                Some(b) => b.cform.as_ref(),
                None => None,
            },
            Self::C1 => match &label.word_curr {
                Some(b) => b.pos.as_ref(),
                None => None,
            },
            Self::C2 => match &label.word_curr {
                Some(b) => b.ctype.as_ref(),
                None => None,
            },
            Self::C3 => match &label.word_curr {
                Some(b) => b.cform.as_ref(),
                None => None,
            },
            Self::D1 => match &label.word_next {
                Some(b) => b.pos.as_ref(),
                None => None,
            },
            Self::D2 => match &label.word_next {
                Some(b) => b.ctype.as_ref(),
                None => None,
            },
            Self::D3 => match &label.word_next {
                Some(b) => b.cform.as_ref(),
                None => None,
            },
        }
    }

    fn test(&self, range: &Vec<u8>, target: &u8) -> (r: bool) {
        let mut i: usize = 0;
        while i < range.len()
            invariant
                i <= range.len(),
                forall|k: int| 0 <= k < i ==> range@[k] != *target,
            decreases range.len() - i,
        {
            if range[i] == *target {
                return true;
            }
            i = i + 1;
        }
        false
    }

    fn is_never_defined(&self) -> (r: bool) {
        false
    }
}

impl Position for UndefinedPotision {
    type Target = ();

    type Range = ();

    type Model = ();

    open spec fn model(range: &()) -> () {
        ()
    }

    /// A field that is never defined has no range: whatever the range
    /// sections hold, they compile to none.
    open spec fn compile(&self, texts: Seq<Seq<char>>) -> Result<(), Fault> {
        Err(Fault::Empty)
    }

    /// The field is never defined.
    open spec fn field(&self, label: &Label) -> Option<()> {
        None
    }

    open spec fn admits(&self, range: &(), target: &()) -> bool {
        true
    }

    /// No label defines this field.
    open spec fn never_defined(&self) -> bool {
        true
    }

    fn range(&self, ranges: &[&str]) -> (r: Result<(), ParseError>) {
        Err(ParseError::Empty)
    }

    fn get<'a>(&self, label: &'a Label) -> (r: Option<&'a ()>) {
        None
    }

    fn test(&self, range: &(), target: &()) -> (r: bool) {
        true
    }

    fn is_never_defined(&self) -> (r: bool) {
        true
    }
}

} // verus!
