//! What holds of every pattern, range and question.

use vstd::prelude::*;
use crate::error::{Fault, ParseError, PositionError};
use crate::label::Label;
use crate::number::{all_digits, decimal_i8, decimal_u8, digit_value, digits_value, is_digit};
use crate::serializer::{digit_text, integer_text, natural_text, padded_text};
use crate::parse_position::{
    backward_single, combination, cuts, estimate, forward_single, hint_of, is_closing,
    is_opening, lemma_prefix_cut_found, lemma_suffix_cut_found, prefix_cut, resolve, split_of,
    table_position, trimmed, verdict, Split,
};
use crate::position::{
    compile_spans, gather, AllPosition, BooleanPosition, PhonePosition, Position,
    UndefinedPotision, UnsignedRangePosition,
};
use crate::question::{
    examine, question_of, survey, AllQuestion, Question, QuestionMatcher, QuestionModel,
};
use crate::span::{
    all_inhabited, arranges, covered, fold_spans, hull, lemma_greatest_end, lemma_least_start,
    merge_is_union, union_of, Span,
};

verus! {

/// A pattern that points at another field than the first of a label needs an
/// asterisk at its start: without one it is rejected for that, whatever else
/// it holds behind a range section that is not empty.
pub proof fn leading_asterisk_is_required(pattern: Seq<char>, position: AllPosition)
    requires
        split_of(pattern).range.len() > 0,
        resolve(split_of(pattern)) == Ok::<AllPosition, PositionError>(position),
        position != AllPosition::Phone(PhonePosition::P1),
        !split_of(pattern).leading,
    ensures
        estimate(pattern) == Err::<(AllPosition, Seq<char>), PositionError>(
            PositionError::MissingPrefixAsterisk,
        ),
        question_of(seq![pattern]) == Err::<QuestionModel, Fault>(
            Fault::InvalidPosition(PositionError::MissingPrefixAsterisk),
        ),
{
    lemma_single_pattern(pattern);
}

/// A pattern that points at another field than the last of a label needs an
/// asterisk at its end: without one it is rejected for that, where its start
/// is in order and its range section is not empty.
pub proof fn trailing_asterisk_is_required(pattern: Seq<char>, position: AllPosition)
    requires
        split_of(pattern).range.len() > 0,
        resolve(split_of(pattern)) == Ok::<AllPosition, PositionError>(position),
        position != AllPosition::UnsignedRange(UnsignedRangePosition::K3),
        !split_of(pattern).trailing,
        position == AllPosition::Phone(PhonePosition::P1) || split_of(pattern).leading,
    ensures
        estimate(pattern) == Err::<(AllPosition, Seq<char>), PositionError>(
            PositionError::MissingSuffixAsterisk,
        ),
        question_of(seq![pattern]) == Err::<QuestionModel, Fault>(
            Fault::InvalidPosition(PositionError::MissingSuffixAsterisk),
        ),
{
    lemma_single_pattern(pattern);
}

/// What a question of one pattern is, from what the pattern alone says.
pub proof fn lemma_single_pattern(pattern: Seq<char>)
    ensures
        survey(seq![pattern]) == match examine(pattern, None) {
            Ok((position, range)) => Ok::<(Option<AllPosition>, Seq<Seq<char>>), Fault>(
                (Some(position), seq![range]),
            ),
            Err(fault) => Err(fault),
        },
        match estimate(pattern) {
            Ok(found) => examine(pattern, None) == Ok::<(AllPosition, Seq<char>), Fault>(found),
            Err(e) => examine(pattern, None) == Err::<(AllPosition, Seq<char>), Fault>(
                Fault::InvalidPosition(e),
            ),
        },
{
    let patterns = seq![pattern];
    assert(patterns.drop_last() =~= Seq::<Seq<char>>::empty());
    assert(patterns.last() == pattern);
    assert(survey(patterns.drop_last()) == Ok::<(Option<AllPosition>, Seq<Seq<char>>), Fault>(
        (None, Seq::empty()),
    ));
    match examine(pattern, None) {
        Ok((position, range)) => {
            assert(Seq::<Seq<char>>::empty().push(range) =~= seq![range]);
        },
        Err(_) => {},
    }
}

/// The range sections of a numerical field compile to the union of their
/// intervals. Sorted by their start and folded from the left, the intervals
/// either leave no gap, and the range is exactly the integers that one of
/// them holds; or they leave a gap, and the range sections are rejected for
/// it.
pub proof fn numerical_range_is_union(
    parts: Seq<Result<Span, Fault>>,
    spans: Seq<Span>,
    sorted: Seq<Span>,
)
    requires
        gather(parts) == Ok::<Seq<Span>, Fault>(spans),
        spans.len() > 0,
        all_inhabited(spans),
        arranges(sorted, spans),
    ensures
        match fold_spans(sorted) {
            Some(range) => {
                &&& compile_spans(parts) == Ok::<Span, Fault>(range)
                &&& forall|x: int| range.holds(x) <==> covered(spans, x)
            },
            None => {
                &&& compile_spans(parts) == Err::<Span, Fault>(Fault::IncontinuousRange)
                &&& exists|x: int| hull(spans).holds(x) && !covered(spans, x)
            },
        },
{
    merge_is_union(sorted, spans);
    lemma_least_start(spans);
    lemma_greatest_end(spans);
    match fold_spans(sorted) {
        Some(range) => {
            assert(range == hull(spans));
            assert forall|x: int| covered(spans, x) implies range.holds(x) by {
                let i = choose|i: int| 0 <= i < spans.len() && (#[trigger] spans[i]).holds(x);
                assert(hull(spans).start <= spans[i].start);
                assert(spans[i].end <= hull(spans).end);
            }
        },
        None => {
            assert(union_of(spans) is None);
        },
    }
}

/// A number alone, as the range section of an unsigned field, compiles to the
/// interval that holds this number and no other: the question matches the
/// labels whose field is this number.
pub proof fn literal_is_singleton(
    position: UnsignedRangePosition,
    text: Seq<char>,
    n: u8,
    question: Question<UnsignedRangePosition>,
    label: &Label,
)
    requires
        decimal_u8(text) == Some(n),
        question.position == position,
        Question::<UnsignedRangePosition>::compiled(position, seq![text]) == Ok::<
            Option<Span>,
            Fault,
        >(question.model()),
    ensures
        position.compile(seq![text]) == Ok::<Span, Fault>(Span { start: n as int, end: n + 1 }),
        question.model() == Some(Span { start: n as int, end: n + 1 }),
        question.accepts(label) <==> position.field(label) == Some(n),
{
    let texts = seq![text];
    let parts = Seq::new(texts.len(), |i: int| crate::position::unsigned_span(texts[i]));
    let span = Span { start: n as int, end: n + 1 };
    assert(text.len() > 0 && is_digit(text.last())) by {
        if text.len() > 0 && text[0] == '+' {
            let digits = text.drop_first();
            assert(digits.len() > 0 && all_digits(digits));
            assert(digits.last() == text.last());
            assert(is_digit(digits[digits.len() - 1]));
        } else {
            assert(text.len() > 0 && all_digits(text));
            assert(is_digit(text[text.len() - 1]));
        }
    }
    assert(text != seq!['?']);
    assert(crate::position::unsigned_span(text) == Ok::<Span, Fault>(span));
    assert(parts =~= seq![Ok::<Span, Fault>(span)]);
    assert(parts.drop_last() =~= Seq::<Result<Span, Fault>>::empty());
    assert(gather(parts.drop_last()) == Ok::<Seq<Span>, Fault>(Seq::empty()));
    assert(Seq::<Span>::empty().push(span) =~= seq![span]);
    assert(gather(parts) == Ok::<Seq<Span>, Fault>(seq![span]));
    let spans = seq![span];
    assert(hull(spans) == span);
    assert forall|x: int| hull(spans).holds(x) implies covered(spans, x) by {
        assert(spans[0].holds(x));
    }
    assert(union_of(spans) == Some(span));
    assert(text != crate::question::undefined_text()) by {
        if text == crate::question::undefined_text() {
            assert(text[0] == 'x');
            assert(text.drop_first().len() == 1);
        }
    }
    assert(texts != seq![crate::question::undefined_text()]) by {
        if texts == seq![crate::question::undefined_text()] {
            assert(texts[0] == text);
            assert(seq![crate::question::undefined_text()][0] == crate::question::undefined_text());
        }
    }
}

/// Parsing is a function of the patterns: two outcomes for the same patterns
/// are the same question, or the same fault.
pub proof fn parse_is_deterministic(
    patterns: Seq<Seq<char>>,
    one: Result<AllQuestion, ParseError>,
    other: Result<AllQuestion, ParseError>,
)
    requires
        match one {
            Ok(q) => q.parsed_from(patterns),
            Err(e) => AllQuestion::rejected(patterns, e@),
        },
        match other {
            Ok(q) => q.parsed_from(patterns),
            Err(e) => AllQuestion::rejected(patterns, e@),
        },
    ensures
        match (one, other) {
            (Ok(p), Ok(q)) => p@ == q@,
            (Err(e), Err(f)) => e@ == f@,
            _ => false,
        },
{
}

/// The two fields for the insertion of a pause are written with inverted
/// polarity: there `0` stands for true and `1` for false. In every other
/// boolean field `0` stands for false and `1` for true.
pub proof fn boolean_polarity(position: BooleanPosition)
    ensures
        position.inverted() <==> (position == BooleanPosition::E5 || position
            == BooleanPosition::G5),
        position.compile(seq![seq!['0']]) == Ok::<bool, Fault>(position.inverted()),
        position.compile(seq![seq!['1']]) == Ok::<bool, Fault>(!position.inverted()),
{
    assert(seq![seq!['0']][0] == seq!['0']);
    assert(seq![seq!['1']][0] == seq!['1']);
    assert(seq!['1'] != seq!['0']) by {
        assert(seq!['1'][0] == '1');
        assert(seq!['0'][0] == '0');
    }
}

/// A question on a field that is never defined matches every label, with a
/// range or without one.
pub proof fn undefined_matches_all(
    question: AllQuestion,
    inner: Question<UndefinedPotision>,
    label: &Label,
)
    requires
        question is Undefined,
    ensures
        question.accepts(label),
        inner.accepts(label),
{
}

/// A pair of delimiters stands in the table of pairs only where neither of
/// the two decides alone.
pub proof fn pairs_are_last_resort(prefix: char, suffix: char)
    requires
        combination(prefix, suffix) is Some,
    ensures
        forward_single(prefix) is None,
        backward_single(suffix) is None,
        prefix != ':',
{
}

/// The tables agree: the delimiters that a label writes around a field are
/// looked up to this field, and fit it.
pub proof fn delimiters_name_their_field(position: AllPosition, range: Seq<char>)
    ensures
        ({
            let split = Split {
                prefix: hint_of(position).0,
                range,
                suffix: hint_of(position).1,
                leading: position != AllPosition::Phone(PhonePosition::P1),
                trailing: position != AllPosition::UnsignedRange(UnsignedRangePosition::K3),
            };
            resolve(split) == Ok::<AllPosition, PositionError>(position) && verdict(split, position)
                == Ok::<(), PositionError>(())
        }),
{
    let split = Split {
        prefix: hint_of(position).0,
        range,
        suffix: hint_of(position).1,
        leading: position != AllPosition::Phone(PhonePosition::P1),
        trailing: position != AllPosition::UnsignedRange(UnsignedRangePosition::K3),
    };
    let p = split.prefix;
    let s = split.suffix;
    assert(p.subrange(p.len() - p.len(), p.len() as int) =~= p);
    assert(s.subrange(0, s.len() as int) =~= s);
    assert(table_position(p, s) == Some(position) || (position == AllPosition::UnsignedRange(
        UnsignedRangePosition::K3,
    ) && table_position(p, s) is None));
}

/// The pattern that asks for `range` at `position`, as a label writes the
/// field: the delimiter before the field, the range section, the delimiter
/// behind it, and an asterisk wherever the label goes on.
pub open spec fn pattern_for(position: AllPosition, range: Seq<char>) -> Seq<char> {
    let head: Seq<char> = if position == AllPosition::Phone(PhonePosition::P1) {
        seq![]
    } else {
        seq!['*']
    };
    let tail: Seq<char> = if position == AllPosition::UnsignedRange(UnsignedRangePosition::K3) {
        seq![]
    } else {
        seq!['*']
    };
    head + hint_of(position).0 + range + hint_of(position).1 + tail
}

/// The delimiter before a field ends with the one character that can end a
/// prefix, and the delimiter behind it starts with the one that can start a
/// suffix. The first field of a label has no delimiter before it, the last
/// field none behind it.
proof fn lemma_delimiter_shape(position: AllPosition)
    ensures
        ({
            let before = hint_of(position).0;
            let behind = hint_of(position).1;
            &&& before.len() <= 3 && behind.len() <= 3
            &&& (before.len() == 0) == (position == AllPosition::Phone(PhonePosition::P1))
            &&& (behind.len() == 0) == (position == AllPosition::UnsignedRange(
                UnsignedRangePosition::K3,
            ))
            &&& before.len() > 0 ==> is_opening(before[before.len() - 1])
            &&& forall|j: int| 0 <= j < before.len() - 1 ==> !is_opening(#[trigger] before[j])
            &&& behind.len() > 0 ==> is_closing(behind[0])
            &&& forall|j: int| 0 < j < behind.len() ==> !is_closing(#[trigger] behind[j])
            &&& before.len() == 0 ==> behind.len() == 1 && is_opening(behind[0])
            &&& behind.len() == 0 ==> before.len() == 1 && is_closing(before[0])
        }),
{
}

/// Where a text with its delimiters is cut: around the text.
proof fn lemma_cuts_around(before: Seq<char>, range: Seq<char>, behind: Seq<char>)
    requires
        range.len() > 0,
        before.len() > 0 ==> is_opening(before[before.len() - 1]),
        forall|j: int| 0 <= j < before.len() - 1 ==> !is_opening(#[trigger] before[j]),
        behind.len() > 0 ==> is_closing(behind[0]),
        forall|j: int| 0 < j < behind.len() ==> !is_closing(#[trigger] behind[j]),
        before.len() == 0 ==> behind.len() == 1 && is_opening(behind[0]),
        behind.len() == 0 ==> before.len() == 1 && is_closing(before[0]),
        before.len() == 0 ==> forall|j: int| 0 <= j < range.len() ==> !is_opening(#[trigger] range[j]),
        behind.len() == 0 ==> forall|j: int| 0 <= j < range.len() ==> !is_closing(#[trigger] range[j]),
    ensures
        cuts(before + range + behind) == (
            before.len() as int,
            (before.len() + range.len()) as int,
        ),
{
    let body = before + range + behind;
    let n = body.len() as int;
    let p = before.len() as int;
    let q = p + range.len();
    assert forall|j: int| 0 <= j < p implies body[j] == before[j] by {}
    assert forall|j: int| p <= j < q implies body[j] == range[j - p] by {}
    assert forall|j: int| q <= j < n implies body[j] == behind[j - q] by {}
    if before.len() > 0 {
        assert(body[p - 1] == before[p - 1]);
        assert forall|j: int| 0 <= j < p - 1 implies !is_opening(body[j]) by {
            assert(body[j] == before[j]);
        }
        lemma_prefix_cut_found(body, p - 1);
    } else {
        // The delimiter behind is the first character that can end a prefix.
        assert(behind.len() > 0);
        if is_opening(behind[0]) {
            assert(body[q] == behind[0]);
            assert forall|j: int| 0 <= j < q implies !is_opening(body[j]) by {
                assert(body[j] == range[j]);
            }
            lemma_prefix_cut_found(body, q);
            assert(prefix_cut(body) == q + 1);
        }
    }
    if behind.len() > 0 {
        assert(body[q] == behind[0]);
        assert forall|j: int| q < j < n implies !is_closing(body[j]) by {
            assert(body[j] == behind[j - q]);
        }
        lemma_suffix_cut_found(body, q);
    } else {
        assert(before.len() > 0);
        if is_closing(before[p - 1]) {
            assert(body[p - 1] == before[p - 1]);
            assert forall|j: int| p - 1 < j < n implies !is_closing(body[j]) by {
                assert(body[j] == range[j - p]);
            }
            lemma_suffix_cut_found(body, p - 1);
        }
    }
}

/// How a text with its delimiters and its asterisks is cut: into the
/// delimiter before, the text and the delimiter behind.
proof fn lemma_split_around(
    before: Seq<char>,
    range: Seq<char>,
    behind: Seq<char>,
    leading: bool,
    trailing: bool,
)
    requires
        range.len() > 0,
        before.len() > 0 ==> is_opening(before[before.len() - 1]),
        forall|j: int| 0 <= j < before.len() - 1 ==> !is_opening(#[trigger] before[j]),
        behind.len() > 0 ==> is_closing(behind[0]),
        forall|j: int| 0 < j < behind.len() ==> !is_closing(#[trigger] behind[j]),
        before.len() == 0 ==> behind.len() == 1 && is_opening(behind[0]),
        behind.len() == 0 ==> before.len() == 1 && is_closing(before[0]),
        before.len() == 0 ==> forall|j: int| 0 <= j < range.len() ==> !is_opening(#[trigger] range[j]),
        behind.len() == 0 ==> forall|j: int| 0 <= j < range.len() ==> !is_closing(#[trigger] range[j]),
        leading == (before.len() > 0),
        trailing == (behind.len() > 0),
        !leading ==> range[0] != '*',
        !trailing ==> range.last() != '*',
    ensures
        split_of(
            (if leading {
                seq!['*']
            } else {
                seq![]
            }) + before + range + behind + (if trailing {
                seq!['*']
            } else {
                seq![]
            }),
        ) == (Split { prefix: before, range, suffix: behind, leading, trailing }),
{
    let head: Seq<char> = if leading {
        seq!['*']
    } else {
        seq![]
    };
    let tail: Seq<char> = if trailing {
        seq!['*']
    } else {
        seq![]
    };
    let pattern = head + before + range + behind + tail;
    let body = before + range + behind;
    assert(trimmed(pattern) == (body, leading, trailing)) by {
        if !leading {
            assert(pattern[0] == range[0]);
            assert(pattern.last() == '*');
            assert(pattern.drop_last() =~= body);
        } else if !trailing {
            assert(pattern[0] == '*');
            let rest = pattern.drop_first();
            assert(rest =~= body);
            assert(rest.last() == range.last());
        } else {
            assert(pattern[0] == '*');
            let rest = pattern.drop_first();
            assert(rest.last() == '*');
            assert(rest.drop_last() =~= body);
        }
    }
    lemma_cuts_around(before, range, behind);
    let split = split_of(pattern);
    assert(split.prefix =~= before);
    assert(split.range =~= range);
    assert(split.suffix =~= behind);
}

/// A pattern that asks for a range at a position, written as a label writes
/// the field, is found to point at this position with this range section.
/// At the first field of a label the range section holds no character that
/// could end a prefix, at the last field none that could start a suffix, and
/// neither puts an asterisk where the pattern's own would stand.
pub proof fn position_is_found(position: AllPosition, range: Seq<char>)
    requires
        range.len() > 0,
        position == AllPosition::Phone(PhonePosition::P1) ==> range[0] != '*' && forall|j: int|
            0 <= j < range.len() ==> !is_opening(#[trigger] range[j]),
        position == AllPosition::UnsignedRange(UnsignedRangePosition::K3) ==> range.last() != '*'
            && forall|j: int| 0 <= j < range.len() ==> !is_closing(#[trigger] range[j]),
    ensures
        estimate(pattern_for(position, range)) == Ok::<(AllPosition, Seq<char>), PositionError>(
            (position, range),
        ),
{
    let first = position == AllPosition::Phone(PhonePosition::P1);
    let last = position == AllPosition::UnsignedRange(UnsignedRangePosition::K3);
    lemma_delimiter_shape(position);
    lemma_split_around(hint_of(position).0, range, hint_of(position).1, !first, !last);
    delimiters_name_their_field(position, range);
}

/// The digit that is written for `d` is read back as `d`.
proof fn lemma_digit_text(d: int)
    requires
        0 <= d < 10,
    ensures
        digit_text(d).len() == 1,
        is_digit(digit_text(d)[0]),
        digit_value(digit_text(d)[0]) == d,
{
    reveal_strlit("0");
    reveal_strlit("1");
    reveal_strlit("2");
    reveal_strlit("3");
    reveal_strlit("4");
    reveal_strlit("5");
    reveal_strlit("6");
    reveal_strlit("7");
    reveal_strlit("8");
    reveal_strlit("9");
}

/// The digits that are written for `n` are read back as `n`.
proof fn lemma_natural_text(n: int)
    requires
        0 <= n,
    ensures
        natural_text(n).len() > 0,
        all_digits(natural_text(n)),
        digits_value(natural_text(n)) == n,
    decreases n,
{
    let text = natural_text(n);
    if n < 10 {
        lemma_digit_text(n);
        assert(text.drop_last() =~= Seq::<char>::empty());
        assert(digits_value(text.drop_last()) == 0);
        assert(text.last() == text[0]);
        assert(digits_value(text) == 10 * digits_value(text.drop_last()) + digit_value(
            text.last(),
        ));
    } else {
        lemma_natural_text(n / 10);
        lemma_digit_text(n % 10);
        let head = natural_text(n / 10);
        let digit = digit_text(n % 10);
        assert(text.drop_last() =~= head);
        assert(text.last() == digit[0]);
        assert(digits_value(text) == 10 * digits_value(text.drop_last()) + digit_value(
            text.last(),
        ));
        assert(n == 10 * (n / 10) + n % 10);
        assert forall|i: int| 0 <= i < text.len() implies is_digit(#[trigger] text[i]) by {
            if i < head.len() {
                assert(text[i] == head[i]);
            }
        }
    }
}

/// A number of a label's field is read back from the text that is written
/// for it: an unsigned one, one padded to two digits, and a signed one.
pub proof fn number_is_read_back(unsigned: u8, signed: i8)
    ensures
        decimal_u8(natural_text(unsigned as int)) == Some(unsigned),
        decimal_u8(padded_text(unsigned as int)) == Some(unsigned),
        decimal_i8(integer_text(signed as int)) == Some(signed),
{
    reveal_strlit("0");
    reveal_strlit("-");
    lemma_natural_text(unsigned as int);
    let text = natural_text(unsigned as int);
    assert(is_digit(text[0]));
    if unsigned < 10 {
        lemma_digit_text(unsigned as int);
        let padded = padded_text(unsigned as int);
        assert(padded.len() == 2);
        assert(padded[0] == '0');
        assert(padded.drop_last() =~= seq!['0']);
        assert(seq!['0'].drop_last() =~= Seq::<char>::empty());
        assert(digits_value(seq!['0']) == 0) by {
            assert(digits_value(Seq::<char>::empty()) == 0);
        }
        assert(padded.last() == text[0]);
        assert(digits_value(padded) == unsigned);
    }
    if signed < 0 {
        lemma_natural_text(-(signed as int));
        let written = integer_text(signed as int);
        assert(written[0] == '-');
        assert(written.drop_first() =~= natural_text(-(signed as int)));
    } else {
        lemma_natural_text(signed as int);
        assert(is_digit(natural_text(signed as int)[0]));
    }
}

} // verus!
