//! From a line of text to the label that it stands for.

use vstd::prelude::*;
use core::num::ParseIntError;
use std::str::FromStr;
use crate::label::{
    AccentPhraseCurrent, AccentPhrasePrevNext, BreathGroupCurrent, BreathGroupPrevNext, Label,
    Mora, Phoneme, Utterance, Word,
};
use crate::number::{
    decimal_i8, decimal_u8, error_kind, i8_fault, parse_i8, parse_u8, u8_fault, IntFault,
};
use crate::text::{chars_of, starts_with};

verus! {

/// Why a line of text is no label.
#[derive(Debug, Clone, PartialEq, Eq)]
pub enum ParseError {
    /// The required symbol was not found.
    SymbolNotFound(&'static str),
    /// The position was supposed to be integer, but failed to parse it as integer.
    ParseIntError(ParseIntError),
    /// The position was supposed to be boolean (0 or 1), but failed to parse it as boolean.
    ParseBoolError,
    /// The position must always be undefined.
    NotUndefined,
}

/// What a [`ParseError`] says, as a mathematical value.
pub enum LabelFault {
    SymbolNotFound(Seq<char>),
    ParseIntError(IntFault),
    ParseBoolError,
    NotUndefined,
}

impl View for ParseError {
    type V = LabelFault;

    open spec fn view(&self) -> LabelFault {
        match self {
            ParseError::SymbolNotFound(symbol) => LabelFault::SymbolNotFound(symbol@),
            ParseError::ParseIntError(e) => LabelFault::ParseIntError(error_kind(*e)),
            ParseError::ParseBoolError => LabelFault::ParseBoolError,
            ParseError::NotUndefined => LabelFault::NotUndefined,
        }
    }
}

/// The phoneme block as a mathematical value.
pub struct PhonemeModel {
    pub p2: Option<Seq<char>>,
    pub p1: Option<Seq<char>>,
    pub c: Option<Seq<char>>,
    pub n1: Option<Seq<char>>,
    pub n2: Option<Seq<char>>,
}

/// A label as a mathematical value.
pub struct LabelModel {
    pub phoneme: PhonemeModel,
    pub mora: Option<Mora>,
    pub word_prev: Option<Word>,
    pub word_curr: Option<Word>,
    pub word_next: Option<Word>,
    pub accent_phrase_prev: Option<AccentPhrasePrevNext>,
    pub accent_phrase_curr: Option<AccentPhraseCurrent>,
    pub accent_phrase_next: Option<AccentPhrasePrevNext>,
    pub breath_group_prev: Option<BreathGroupPrevNext>,
    pub breath_group_curr: Option<BreathGroupCurrent>,
    pub breath_group_next: Option<BreathGroupPrevNext>,
    pub utterance: Utterance,
}

/// The text of a string, where there is one.
pub open spec fn text_of(s: Option<String>) -> Option<Seq<char>> {
    match s {
        Some(s) => Some(s@),
        None => None,
    }
}

impl View for Phoneme {
    type V = PhonemeModel;

    open spec fn view(&self) -> PhonemeModel {
        PhonemeModel {
            p2: text_of(self.p2),
            p1: text_of(self.p1),
            c: text_of(self.c),
            n1: text_of(self.n1),
            n2: text_of(self.n2),
        }
    }
}

impl View for Label {
    type V = LabelModel;

    open spec fn view(&self) -> LabelModel {
        LabelModel {
            phoneme: self.phoneme@,
            mora: self.mora,
            word_prev: self.word_prev,
            word_curr: self.word_curr,
            word_next: self.word_next,
            accent_phrase_prev: self.accent_phrase_prev,
            accent_phrase_curr: self.accent_phrase_curr,
            accent_phrase_next: self.accent_phrase_next,
            breath_group_prev: self.breath_group_prev,
            breath_group_curr: self.breath_group_curr,
            breath_group_next: self.breath_group_next,
            utterance: self.utterance,
        }
    }
}

/// Where `symbol` first occurs in `s`.
pub open spec fn find(s: Seq<char>, symbol: Seq<char>) -> Option<int>
    decreases s.len(),
{
    if starts_with(s, symbol) {
        Some(0)
    } else if s.len() == 0 {
        None
    } else {
        match find(s.drop_first(), symbol) {
            Some(i) => Some(i + 1),
            None => None,
        }
    }
}

/// A field that was read, with the text that is left behind it; or why it
/// could not be read.
pub struct Reading<T> {
    pub fault: Option<LabelFault>,
    pub value: T,
    pub rest: Seq<char>,
}

/// The text up to the first `symbol`, and what is left behind the symbol.
pub open spec fn until_text(text: Seq<char>, symbol: Seq<char>) -> Reading<Seq<char>> {
    match find(text, symbol) {
        Some(i) => Reading {
            fault: None,
            value: text.subrange(0, i),
            rest: text.subrange(i + symbol.len(), text.len() as int),
        },
        None => Reading {
            fault: Some(LabelFault::SymbolNotFound(symbol)),
            value: Seq::empty(),
            rest: text,
        },
    }
}

/// `xx` stands for a field that is not defined.
pub open spec fn is_xx(field: Seq<char>) -> bool {
    field == "xx"@
}

/// A phoneme up to `symbol`; `xx` for none.
pub open spec fn read_phone(text: Seq<char>, symbol: Seq<char>) -> Reading<Option<Seq<char>>> {
    let r = until_text(text, symbol);
    Reading {
        fault: r.fault,
        value: if is_xx(r.value) {
            None
        } else {
            Some(r.value)
        },
        rest: r.rest,
    }
}

/// An unsigned number up to `symbol`; `xx` for none.
pub open spec fn read_number(text: Seq<char>, symbol: Seq<char>) -> Reading<Option<u8>> {
    let r = until_text(text, symbol);
    Reading {
        fault: if r.fault is Some {
            r.fault
        } else if is_xx(r.value) || decimal_u8(r.value) is Some {
            None
        } else {
            Some(LabelFault::ParseIntError(u8_fault(r.value)))
        },
        value: if is_xx(r.value) {
            None
        } else {
            decimal_u8(r.value)
        },
        rest: r.rest,
    }
}

/// A signed number up to `symbol`; `xx` for none.
pub open spec fn read_signed(text: Seq<char>, symbol: Seq<char>) -> Reading<Option<i8>> {
    let r = until_text(text, symbol);
    Reading {
        fault: if r.fault is Some {
            r.fault
        } else if is_xx(r.value) || decimal_i8(r.value) is Some {
            None
        } else {
            Some(LabelFault::ParseIntError(i8_fault(r.value)))
        },
        value: if is_xx(r.value) {
            None
        } else {
            decimal_i8(r.value)
        },
        rest: r.rest,
    }
}

/// What a flag stands for: `0` for false, `1` for true, `xx` for none.
pub open spec fn flag_of(field: Seq<char>) -> Option<Option<bool>> {
    if is_xx(field) {
        Some(None)
    } else if field == "0"@ {
        Some(Some(false))
    } else if field == "1"@ {
        Some(Some(true))
    } else {
        None
    }
}

/// A flag up to `symbol`.
pub open spec fn read_flag(text: Seq<char>, symbol: Seq<char>) -> Reading<Option<bool>> {
    let r = until_text(text, symbol);
    Reading {
        fault: if r.fault is Some {
            r.fault
        } else if flag_of(r.value) is Some {
            None
        } else {
            Some(LabelFault::ParseBoolError)
        },
        value: match flag_of(r.value) {
            Some(flag) => flag,
            None => None,
        },
        rest: r.rest,
    }
}

/// A field up to `symbol` that has to be `xx`.
pub open spec fn read_undefined(text: Seq<char>, symbol: Seq<char>) -> Reading<()> {
    let r = until_text(text, symbol);
    Reading {
        fault: if r.fault is Some {
            r.fault
        } else if is_xx(r.value) {
            None
        } else {
            Some(LabelFault::NotUndefined)
        },
        value: (),
        rest: r.rest,
    }
}

/// A count up to `symbol`: a number that has to be there.
pub open spec fn read_count(text: Seq<char>, symbol: Seq<char>) -> Reading<u8> {
    let r = until_text(text, symbol);
    Reading {
        fault: if r.fault is Some {
            r.fault
        } else if decimal_u8(r.value) is Some {
            None
        } else {
            Some(LabelFault::ParseIntError(u8_fault(r.value)))
        },
        value: match decimal_u8(r.value) {
            Some(v) => v,
            None => 0,
        },
        rest: r.rest,
    }
}

/// The first fault in the order of reading, if there is one.
pub open spec fn first_fault(faults: Seq<Option<LabelFault>>) -> Option<LabelFault>
    decreases faults.len(),
{
    if faults.len() == 0 {
        None
    } else if faults[0] is Some {
        faults[0]
    } else {
        first_fault(faults.drop_first())
    }
}

/// What a block makes of its fields: the value and the text behind, or the
/// first fault met.
pub open spec fn block<T>(faults: Seq<Option<LabelFault>>, value: T, rest: Seq<char>) -> Result<
    (T, Seq<char>),
    LabelFault,
> {
    match first_fault(faults) {
        Some(fault) => Err(fault),
        None => Ok((value, rest)),
    }
}

/// `p1^p2-p3+p4=p5/A:`
#[verifier::opaque]
pub open spec fn p_block(text: Seq<char>) -> Result<(PhonemeModel, Seq<char>), LabelFault> {
    let p1 = read_phone(text, "^"@);
    let p2 = read_phone(p1.rest, "-"@);
    let p3 = read_phone(p2.rest, "+"@);
    let p4 = read_phone(p3.rest, "="@);
    let p5 = read_phone(p4.rest, "/A:"@);
    block(
        seq![p1.fault, p2.fault, p3.fault, p4.fault, p5.fault],
        PhonemeModel { p2: p1.value, p1: p2.value, c: p3.value, n1: p4.value, n2: p5.value },
        p5.rest,
    )
}

/// `a1+a2+a3/B:`. The block is defined where all of its fields are.
#[verifier::opaque]
pub open spec fn a_block(text: Seq<char>) -> Result<(Option<Mora>, Seq<char>), LabelFault> {
    let a1 = read_signed(text, "+"@);
    let a2 = read_number(a1.rest, "+"@);
    let a3 = read_number(a2.rest, "/B:"@);
    block(
        seq![a1.fault, a2.fault, a3.fault],
        match (a1.value, a2.value, a3.value) {
            (Some(a1), Some(a2), Some(a3)) => Some(
                Mora { relative_accent_position: a1, position_forward: a2, position_backward: a3 },
            ),
            _ => None,
        },
        a3.rest,
    )
}

/// The three fields of a word. The block is defined where one of its fields is.
#[verifier::opaque]
pub open spec fn word_block(
    text: Seq<char>,
    first: Seq<char>,
    second: Seq<char>,
    next: Seq<char>,
) -> Result<(Option<Word>, Seq<char>), LabelFault> {
    let w1 = read_number(text, first);
    let w2 = read_number(w1.rest, second);
    let w3 = read_number(w2.rest, next);
    block(
        seq![w1.fault, w2.fault, w3.fault],
        if w1.value is None && w2.value is None && w3.value is None {
            None
        } else {
            Some(Word { pos: w1.value, ctype: w2.value, cform: w3.value })
        },
        w3.rest,
    )
}

/// The five fields of the previous or the next accent phrase. The block is
/// defined where its first three fields are. The last field is written with
/// inverted polarity.
#[verifier::opaque]
pub open spec fn accent_phrase_block(
    text: Seq<char>,
    mark: Seq<char>,
    last: Seq<char>,
    next: Seq<char>,
) -> Result<(Option<AccentPhrasePrevNext>, Seq<char>), LabelFault> {
    let e1 = read_number(text, "_"@);
    let e2 = read_number(e1.rest, mark);
    let e3 = read_flag(e2.rest, "_"@);
    let e4 = read_undefined(e3.rest, last);
    let e5 = read_flag(e4.rest, next);
    block(
        seq![e1.fault, e2.fault, e3.fault, e4.fault, e5.fault],
        match (e1.value, e2.value, e3.value) {
            (Some(e1), Some(e2), Some(e3)) => Some(
                AccentPhrasePrevNext {
                    mora_count: e1,
                    accent_position: e2,
                    is_interrogative: e3,
                    is_pause_insertion: match e5.value {
                        Some(flag) => Some(!flag),
                        None => None,
                    },
                },
            ),
            _ => None,
        },
        e5.rest,
    )
}

/// `f1_f2#f3_f4@f5_f6|f7_f8/G:`. The block is defined where all of its fields are.
#[verifier::opaque]
pub open spec fn f_block(text: Seq<char>) -> Result<
    (Option<AccentPhraseCurrent>, Seq<char>),
    LabelFault,
> {
    let f1 = read_number(text, "_"@);
    let f2 = read_number(f1.rest, "#"@);
    let f3 = read_flag(f2.rest, "_"@);
    let f4 = read_undefined(f3.rest, "@"@);
    let f5 = read_number(f4.rest, "_"@);
    let f6 = read_number(f5.rest, "|"@);
    let f7 = read_number(f6.rest, "_"@);
    let f8 = read_number(f7.rest, "/G:"@);
    block(
        seq![f1.fault, f2.fault, f3.fault, f4.fault, f5.fault, f6.fault, f7.fault, f8.fault],
        match (f1.value, f2.value, f3.value, f5.value, f6.value, f7.value, f8.value) {
            (Some(f1), Some(f2), Some(f3), Some(f5), Some(f6), Some(f7), Some(f8)) => Some(
                AccentPhraseCurrent {
                    mora_count: f1,
                    accent_position: f2,
                    is_interrogative: f3,
                    accent_phrase_position_forward: f5,
                    accent_phrase_position_backward: f6,
                    mora_position_forward: f7,
                    mora_position_backward: f8,
                },
            ),
            _ => None,
        },
        f8.rest,
    )
}

/// The two fields of the previous or the next breath group. The block is
/// defined where both of its fields are.
#[verifier::opaque]
pub open spec fn breath_group_block(text: Seq<char>, next: Seq<char>) -> Result<
    (Option<BreathGroupPrevNext>, Seq<char>),
    LabelFault,
> {
    let h1 = read_number(text, "_"@);
    let h2 = read_number(h1.rest, next);
    block(
        seq![h1.fault, h2.fault],
        match (h1.value, h2.value) {
            (Some(h1), Some(h2)) => Some(
                BreathGroupPrevNext { accent_phrase_count: h1, mora_count: h2 },
            ),
            _ => None,
        },
        h2.rest,
    )
}

/// `i1-i2@i3+i4&i5-i6|i7+i8/J:`. The block is defined where all of its fields are.
#[verifier::opaque]
pub open spec fn i_block(text: Seq<char>) -> Result<
    (Option<BreathGroupCurrent>, Seq<char>),
    LabelFault,
> {
    let i1 = read_number(text, "-"@);
    let i2 = read_number(i1.rest, "@"@);
    let i3 = read_number(i2.rest, "+"@);
    let i4 = read_number(i3.rest, "&"@);
    let i5 = read_number(i4.rest, "-"@);
    let i6 = read_number(i5.rest, "|"@);
    let i7 = read_number(i6.rest, "+"@);
    let i8 = read_number(i7.rest, "/J:"@);
    block(
        seq![i1.fault, i2.fault, i3.fault, i4.fault, i5.fault, i6.fault, i7.fault, i8.fault],
        match (i1.value, i2.value, i3.value, i4.value, i5.value, i6.value, i7.value, i8.value) {
            (
                Some(i1),
                Some(i2),
                Some(i3),
                Some(i4),
                Some(i5),
                Some(i6),
                Some(i7),
                Some(i8),
            ) => Some(
                BreathGroupCurrent {
                    accent_phrase_count: i1,
                    mora_count: i2,
                    breath_group_position_forward: i3,
                    breath_group_position_backward: i4,
                    accent_phrase_position_forward: i5,
                    accent_phrase_position_backward: i6,
                    mora_position_forward: i7,
                    mora_position_backward: i8,
                },
            ),
            _ => None,
        },
        i8.rest,
    )
}

/// `k1+k2-k3`, up to the end of the text.
#[verifier::opaque]
pub open spec fn k_block(text: Seq<char>) -> Result<Utterance, LabelFault> {
    let k1 = read_count(text, "+"@);
    let k2 = read_count(k1.rest, "-"@);
    let k3 = decimal_u8(k2.rest);
    match first_fault(
        seq![
            k1.fault,
            k2.fault,
            if k3 is Some {
                None
            } else {
                Some(LabelFault::ParseIntError(u8_fault(k2.rest)))
            },
        ],
    ) {
        Some(fault) => Err(fault),
        None => Ok(
            Utterance {
                breath_group_count: k1.value,
                accent_phrase_count: k2.value,
                mora_count: k3->0,
            },
        ),
    }
}

/// The text that a block leaves.
pub open spec fn rest_of<T>(r: Result<(T, Seq<char>), LabelFault>) -> Seq<char> {
    match r {
        Ok((_, rest)) => rest,
        Err(_) => Seq::empty(),
    }
}

/// The fault of a block, if it has one.
pub open spec fn fault_of<T>(r: Result<T, LabelFault>) -> Option<LabelFault> {
    match r {
        Ok(_) => None,
        Err(fault) => Some(fault),
    }
}

/// The label that a line of text stands for: the phoneme block and the blocks
/// `A` to `K` in this order, each field up to the symbol that follows it.
pub open spec fn label_of(text: Seq<char>) -> Result<LabelModel, LabelFault> {
    let p = p_block(text);
    let a = a_block(rest_of(p));
    let b = word_block(rest_of(a), "-"@, "_"@, "/C:"@);
    let c = word_block(rest_of(b), "_"@, "+"@, "/D:"@);
    let d = word_block(rest_of(c), "+"@, "_"@, "/E:"@);
    let e = accent_phrase_block(rest_of(d), "!"@, "-"@, "/F:"@);
    let f = f_block(rest_of(e));
    let g = accent_phrase_block(rest_of(f), "%"@, "_"@, "/H:"@);
    let h = breath_group_block(rest_of(g), "/I:"@);
    let i = i_block(rest_of(h));
    let j = breath_group_block(rest_of(i), "/K:"@);
    let k = k_block(rest_of(j));
    match first_fault(
        seq![
            fault_of(p),
            fault_of(a),
            fault_of(b),
            fault_of(c),
            fault_of(d),
            fault_of(e),
            fault_of(f),
            fault_of(g),
            fault_of(h),
            fault_of(i),
            fault_of(j),
            fault_of(k),
        ],
    ) {
        Some(fault) => Err(fault),
        None => Ok(
            LabelModel {
                phoneme: p->Ok_0.0,
                mora: a->Ok_0.0,
                word_prev: b->Ok_0.0,
                word_curr: c->Ok_0.0,
                word_next: d->Ok_0.0,
                accent_phrase_prev: e->Ok_0.0,
                accent_phrase_curr: f->Ok_0.0,
                accent_phrase_next: g->Ok_0.0,
                breath_group_prev: h->Ok_0.0,
                breath_group_curr: i->Ok_0.0,
                breath_group_next: j->Ok_0.0,
                utterance: k->Ok_0,
            },
        ),
    }
}

/// `symbol` occurs in `s` at `i` and not before.
pub proof fn lemma_find_first(s: Seq<char>, symbol: Seq<char>, i: int)
    requires
        0 <= i <= s.len(),
        starts_with(s.skip(i), symbol),
        forall|j: int| 0 <= j < i ==> !starts_with(#[trigger] s.skip(j), symbol),
    ensures
        find(s, symbol) == Some(i),
    decreases i,
{
    assert(s.skip(0) =~= s);
    if i > 0 {
        let rest = s.drop_first();
        assert(rest.skip(i - 1) =~= s.skip(i));
        assert forall|j: int| 0 <= j < i - 1 implies !starts_with(#[trigger] rest.skip(j), symbol) by {
            assert(rest.skip(j) =~= s.skip(j + 1));
        }
        lemma_find_first(rest, symbol, i - 1);
    }
}

/// `symbol` does not occur in `s`.
pub proof fn lemma_find_none(s: Seq<char>, symbol: Seq<char>)
    requires
        forall|j: int| 0 <= j <= s.len() ==> !starts_with(#[trigger] s.skip(j), symbol),
    ensures
        find(s, symbol) is None,
    decreases s.len(),
{
    assert(s.skip(0) =~= s);
    if s.len() > 0 {
        let rest = s.drop_first();
        assert forall|j: int| 0 <= j <= rest.len() implies !starts_with(
            #[trigger] rest.skip(j),
            symbol,
        ) by {
            assert(rest.skip(j) =~= s.skip(j + 1));
        }
        lemma_find_none(rest, symbol);
    }
}

/// Whether `symbol` stands in `chars` at `at`.
fn stands_at(chars: &Vec<char>, at: usize, symbol: &Vec<char>) -> (r: bool)
    requires
        at <= chars.len(),
    ensures
        r == starts_with(chars@.skip(at as int), symbol@),
{
    if symbol.len() > chars.len() - at {
        return false;
    }
    let ghost tail = chars@.skip(at as int);
    let mut i: usize = 0;
    while i < symbol.len()
        invariant
            at + symbol.len() <= chars.len(),
            i <= symbol.len(),
            tail == chars@.skip(at as int),
            forall|j: int| 0 <= j < i ==> tail[j] == symbol@[j],
        decreases symbol.len() - i,
    {
        if chars[at + i] != symbol[i] {
            assert(tail.subrange(0, symbol.len() as int)[i as int] != symbol@[i as int]);
            return false;
        }
        i = i + 1;
    }
    assert(tail.subrange(0, symbol.len() as int) =~= symbol@);
    true
}

/// Reads a line of text field by field.
pub struct LabelTokenizer<'a> {
    input: &'a str,
    chars: Vec<char>,
    index: usize,
}

impl<'a> LabelTokenizer<'a> {
    /// Whether the tokenizer is in order.
    pub closed spec fn wf(&self) -> bool {
        self.chars@ == self.input@ && self.index <= self.chars.len()
    }

    /// The text that has not been read yet.
    pub closed spec fn rest(&self) -> Seq<char> {
        self.chars@.skip(self.index as int)
    }

    /// A tokenizer at the start of `input`.
    pub fn new(input: &'a str) -> (tokenizer: Self)
        ensures
            tokenizer.wf(),
            tokenizer.rest() == input@,
    {
        let chars = chars_of(input);
        assert(chars@.skip(0) =~= chars@);
        Self { input, chars, index: 0 }
    }

    /// Reads up to the next `symbol` and steps over it.
    fn until(&mut self, symbol: &'static str) -> (r: Result<&'a str, ParseError>)
        requires
            old(self).wf(),
        ensures
            final(self).wf(),
            match r {
                Ok(field) => {
                    &&& until_text(old(self).rest(), symbol@).fault is None
                    &&& until_text(old(self).rest(), symbol@).value == field@
                    &&& until_text(old(self).rest(), symbol@).rest == final(self).rest()
                },
                Err(e) => {
                    &&& until_text(old(self).rest(), symbol@).fault == Some(e@)
                    &&& e@ == LabelFault::SymbolNotFound(symbol@)
                },
            },
    {
        let pattern = chars_of(symbol);
        let ghost rest = self.rest();
        let n = self.chars.len();
        let mut at: usize = self.index;
        loop
            invariant
                self.wf(),
                *self == *old(self),
                rest == self.rest(),
                n == self.chars.len(),
                self.index <= at <= n,
                pattern@ == symbol@,
                forall|j: int| 0 <= j < at - self.index ==> !starts_with(
                    #[trigger] rest.skip(j),
                    symbol@,
                ),
            ensures
                at == n,
                forall|j: int| 0 <= j <= n - self.index ==> !starts_with(
                    #[trigger] rest.skip(j),
                    symbol@,
                ),
            decreases n - at,
        {
            proof {
                assert(rest.skip(at - self.index) =~= self.chars@.skip(at as int));
            }
            if stands_at(&self.chars, at, &pattern) {
                let from = self.index;
                let field = self.input.substring_char(from, at);
                proof {
                    lemma_find_first(rest, symbol@, at - from);
                    assert(field@ =~= rest.subrange(0, at - from));
                    assert(self.chars@.skip(at + pattern.len()) =~= rest.subrange(
                        at - from + symbol@.len(),
                        rest.len() as int,
                    ));
                }
                self.index = at + pattern.len();
                return Ok(field);
            }
            if at == n {
                break;
            }
            at = at + 1;
        }
        proof {
            lemma_find_none(rest, symbol@);
        }
        Err(ParseError::SymbolNotFound(symbol))
    }

    /// A phoneme, or none for `xx`.
    fn string_or_xx(input: &str) -> (r: Option<String>)
        ensures
            text_of(r) == if is_xx(input@) {
                None
            } else {
                Some(input@)
            },
    {
        if holds_xx(input) {
            None
        } else {
            Some(input.to_owned())
        }
    }

    /// An unsigned number, or none for `xx`.
    fn parse_or_xx(input: &str) -> (r: Result<Option<u8>, ParseIntError>)
        ensures
            match r {
                Ok(value) => (is_xx(input@) || decimal_u8(input@) is Some) && value == if is_xx(
                    input@,
                ) {
                    None
                } else {
                    decimal_u8(input@)
                },
                Err(e) => !is_xx(input@) && decimal_u8(input@) is None && error_kind(e)
                    == u8_fault(input@),
            },
    {
        if holds_xx(input) {
            Ok(None)
        } else {
            match parse_u8(input) {
                Ok(value) => Ok(Some(value)),
                Err(e) => Err(e),
            }
        }
    }

    /// A signed number, or none for `xx`.
    fn parse_signed_or_xx(input: &str) -> (r: Result<Option<i8>, ParseIntError>)
        ensures
            match r {
                Ok(value) => (is_xx(input@) || decimal_i8(input@) is Some) && value == if is_xx(
                    input@,
                ) {
                    None
                } else {
                    decimal_i8(input@)
                },
                Err(e) => !is_xx(input@) && decimal_i8(input@) is None && error_kind(e)
                    == i8_fault(input@),
            },
    {
        if holds_xx(input) {
            Ok(None)
        } else {
            match parse_i8(input) {
                Ok(value) => Ok(Some(value)),
                Err(e) => Err(e),
            }
        }
    }

    /// A flag, or none for `xx`.
    fn parse_bool_or_xx(input: &str) -> (r: Result<Option<bool>, ParseError>)
        ensures
            match r {
                Ok(flag) => flag_of(input@) == Some(flag),
                Err(e) => flag_of(input@) is None && e@ == LabelFault::ParseBoolError,
            },
    {
        proof {
            reveal_strlit("0");
            reveal_strlit("1");
        }
        if holds_xx(input) {
            return Ok(None);
        }
        let chars = chars_of(input);
        if chars.len() == 1 && chars[0] == '0' {
            assert(input@ =~= "0"@);
            Ok(Some(false))
        } else if chars.len() == 1 && chars[0] == '1' {
            assert(input@ =~= "1"@);
            Ok(Some(true))
        } else {
            Err(ParseError::ParseBoolError)
        }
    }

    /// A field that has to be `xx`.
    fn assert_xx(input: &str) -> (r: Result<(), ParseError>)
        ensures
            match r {
                Ok(_) => is_xx(input@),
                Err(e) => !is_xx(input@) && e@ == LabelFault::NotUndefined,
            },
    {
        if holds_xx(input) {
            Ok(())
        } else {
            Err(ParseError::NotUndefined)
        }
    }

    fn phone(&mut self, symbol: &'static str) -> (r: Result<Option<String>, ParseError>)
        requires
            old(self).wf(),
        ensures
            final(self).wf(),
            match r {
                Ok(value) => {
                    &&& read_phone(old(self).rest(), symbol@).fault is None
                    &&& read_phone(old(self).rest(), symbol@).value == text_of(value)
                    &&& read_phone(old(self).rest(), symbol@).rest == final(self).rest()
                },
                Err(e) => read_phone(old(self).rest(), symbol@).fault == Some(e@),
            },
    {
        match self.until(symbol) {
            Ok(field) => Ok(Self::string_or_xx(field)),
            Err(e) => Err(e),
        }
    }

    fn number(&mut self, symbol: &'static str) -> (r: Result<Option<u8>, ParseError>)
        requires
            old(self).wf(),
        ensures
            final(self).wf(),
            match r {
                Ok(value) => {
                    &&& read_number(old(self).rest(), symbol@).fault is None
                    &&& read_number(old(self).rest(), symbol@).value == value
                    &&& read_number(old(self).rest(), symbol@).rest == final(self).rest()
                },
                Err(e) => read_number(old(self).rest(), symbol@).fault == Some(e@),
            },
    {
        match self.until(symbol) {
            Ok(field) => match Self::parse_or_xx(field) {
                Ok(value) => Ok(value),
                Err(e) => Err(ParseError::ParseIntError(e)),
            },
            Err(e) => Err(e),
        }
    }

    fn signed(&mut self, symbol: &'static str) -> (r: Result<Option<i8>, ParseError>)
        requires
            old(self).wf(),
        ensures
            final(self).wf(),
            match r {
                Ok(value) => {
                    &&& read_signed(old(self).rest(), symbol@).fault is None
                    &&& read_signed(old(self).rest(), symbol@).value == value
                    &&& read_signed(old(self).rest(), symbol@).rest == final(self).rest()
                },
                Err(e) => read_signed(old(self).rest(), symbol@).fault == Some(e@),
            },
    {
        match self.until(symbol) {
            Ok(field) => match Self::parse_signed_or_xx(field) {
                Ok(value) => Ok(value),
                Err(e) => Err(ParseError::ParseIntError(e)),
            },
            Err(e) => Err(e),
        }
    }

    fn flag(&mut self, symbol: &'static str) -> (r: Result<Option<bool>, ParseError>)
        requires
            old(self).wf(),
        ensures
            final(self).wf(),
            match r {
                Ok(value) => {
                    &&& read_flag(old(self).rest(), symbol@).fault is None
                    &&& read_flag(old(self).rest(), symbol@).value == value
                    &&& read_flag(old(self).rest(), symbol@).rest == final(self).rest()
                },
                Err(e) => read_flag(old(self).rest(), symbol@).fault == Some(e@),
            },
    {
        match self.until(symbol) {
            Ok(field) => Self::parse_bool_or_xx(field),
            Err(e) => Err(e),
        }
    }

    fn undefined(&mut self, symbol: &'static str) -> (r: Result<(), ParseError>)
        requires
            old(self).wf(),
        ensures
            final(self).wf(),
            match r {
                Ok(_) => {
                    &&& read_undefined(old(self).rest(), symbol@).fault is None
                    &&& read_undefined(old(self).rest(), symbol@).rest == final(self).rest()
                },
                Err(e) => read_undefined(old(self).rest(), symbol@).fault == Some(e@),
            },
    {
        match self.until(symbol) {
            Ok(field) => Self::assert_xx(field),
            Err(e) => Err(e),
        }
    }

    fn count(&mut self, symbol: &'static str) -> (r: Result<u8, ParseError>)
        requires
            old(self).wf(),
        ensures
            final(self).wf(),
            match r {
                Ok(value) => {
                    &&& read_count(old(self).rest(), symbol@).fault is None
                    &&& read_count(old(self).rest(), symbol@).value == value
                    &&& read_count(old(self).rest(), symbol@).rest == final(self).rest()
                },
                Err(e) => read_count(old(self).rest(), symbol@).fault == Some(e@),
            },
    {
        match self.until(symbol) {
            Ok(field) => match parse_u8(field) {
                Ok(value) => Ok(value),
                Err(e) => Err(ParseError::ParseIntError(e)),
            },
            Err(e) => Err(e),
        }
    }
}

/// Whether the text is `xx`.
fn holds_xx(input: &str) -> (r: bool)
    ensures
        r == is_xx(input@),
{
    proof {
        reveal_strlit("xx");
    }
    let chars = chars_of(input);
    if chars.len() == 2 && chars[0] == 'x' && chars[1] == 'x' {
        assert(input@ =~= "xx"@);
        true
    } else {
        false
    }
}

impl<'a> LabelTokenizer<'a> {
    /// `p1^p2-p3+p4=p5`
    fn p(&mut self) -> (r: Result<Phoneme, ParseError>)
        requires
            old(self).wf(),
        ensures
            final(self).wf(),
            match r {
                Ok(phoneme) => p_block(old(self).rest()) == Ok::<
                    (PhonemeModel, Seq<char>),
                    LabelFault,
                >((phoneme@, final(self).rest())),
                Err(e) => p_block(old(self).rest()) == Err::<
                    (PhonemeModel, Seq<char>),
                    LabelFault,
                >(e@),
            },
    {
        reveal(p_block);
        reveal_with_fuel(first_fault, 6);
        let p1 = self.phone("^")?;
        let p2 = self.phone("-")?;
        let p3 = self.phone("+")?;
        let p4 = self.phone("=")?;
        let p5 = self.phone("/A:")?;
        Ok(Phoneme { p2: p1, p1: p2, c: p3, n1: p4, n2: p5 })
    }

    /// `/A:a1+a2+a3`
    fn a(&mut self) -> (r: Result<Option<Mora>, ParseError>)
        requires
            old(self).wf(),
        ensures
            final(self).wf(),
            match r {
                Ok(mora) => a_block(old(self).rest()) == Ok::<(Option<Mora>, Seq<char>), LabelFault>(
                    (mora, final(self).rest()),
                ),
                Err(e) => a_block(old(self).rest()) == Err::<(Option<Mora>, Seq<char>), LabelFault>(
                    e@,
                ),
            },
    {
        reveal(a_block);
        reveal_with_fuel(first_fault, 4);
        let a1 = self.signed("+")?;
        let a2 = self.number("+")?;
        let a3 = self.number("/B:")?;
        if let (Some(a1), Some(a2), Some(a3)) = (a1, a2, a3) {
            Ok(Some(Mora { relative_accent_position: a1, position_forward: a2, position_backward: a3 }))
        } else {
            Ok(None)
        }
    }

    fn word(&mut self, first: &'static str, second: &'static str, next: &'static str) -> (r: Result<
        Option<Word>,
        ParseError,
    >)
        requires
            old(self).wf(),
        ensures
            final(self).wf(),
            match r {
                Ok(word) => word_block(old(self).rest(), first@, second@, next@) == Ok::<
                    (Option<Word>, Seq<char>),
                    LabelFault,
                >((word, final(self).rest())),
                Err(e) => word_block(old(self).rest(), first@, second@, next@) == Err::<
                    (Option<Word>, Seq<char>),
                    LabelFault,
                >(e@),
            },
    {
        reveal(word_block);
        reveal_with_fuel(first_fault, 4);
        let w1 = self.number(first)?;
        let w2 = self.number(second)?;
        let w3 = self.number(next)?;
        if w1.is_none() && w2.is_none() && w3.is_none() {
            Ok(None)
        } else {
            Ok(Some(Word { pos: w1, ctype: w2, cform: w3 }))
        }
    }

    /// `/B:b1-b2_b3`
    fn b(&mut self) -> (r: Result<Option<Word>, ParseError>)
        requires
            old(self).wf(),
        ensures
            final(self).wf(),
            match r {
                Ok(word) => word_block(old(self).rest(), "-"@, "_"@, "/C:"@) == Ok::<
                    (Option<Word>, Seq<char>),
                    LabelFault,
                >((word, final(self).rest())),
                Err(e) => word_block(old(self).rest(), "-"@, "_"@, "/C:"@) == Err::<
                    (Option<Word>, Seq<char>),
                    LabelFault,
                >(e@),
            },
    {
        self.word("-", "_", "/C:")
    }

    /// `/C:c1_c2+c3`
    fn c(&mut self) -> (r: Result<Option<Word>, ParseError>)
        requires
            old(self).wf(),
        ensures
            final(self).wf(),
            match r {
                Ok(word) => word_block(old(self).rest(), "_"@, "+"@, "/D:"@) == Ok::<
                    (Option<Word>, Seq<char>),
                    LabelFault,
                >((word, final(self).rest())),
                Err(e) => word_block(old(self).rest(), "_"@, "+"@, "/D:"@) == Err::<
                    (Option<Word>, Seq<char>),
                    LabelFault,
                >(e@),
            },
    {
        self.word("_", "+", "/D:")
    }

    /// `/D:d1+d2_d3`
    fn d(&mut self) -> (r: Result<Option<Word>, ParseError>)
        requires
            old(self).wf(),
        ensures
            final(self).wf(),
            match r {
                Ok(word) => word_block(old(self).rest(), "+"@, "_"@, "/E:"@) == Ok::<
                    (Option<Word>, Seq<char>),
                    LabelFault,
                >((word, final(self).rest())),
                Err(e) => word_block(old(self).rest(), "+"@, "_"@, "/E:"@) == Err::<
                    (Option<Word>, Seq<char>),
                    LabelFault,
                >(e@),
            },
    {
        self.word("+", "_", "/E:")
    }

    fn accent_phrase(
        &mut self,
        mark: &'static str,
        last: &'static str,
        next: &'static str,
    ) -> (r: Result<Option<AccentPhrasePrevNext>, ParseError>)
        requires
            old(self).wf(),
        ensures
            final(self).wf(),
            match r {
                Ok(phrase) => accent_phrase_block(old(self).rest(), mark@, last@, next@) == Ok::<
                    (Option<AccentPhrasePrevNext>, Seq<char>),
                    LabelFault,
                >((phrase, final(self).rest())),
                Err(e) => accent_phrase_block(old(self).rest(), mark@, last@, next@) == Err::<
                    (Option<AccentPhrasePrevNext>, Seq<char>),
                    LabelFault,
                >(e@),
            },
    {
        reveal(accent_phrase_block);
        reveal_with_fuel(first_fault, 6);
        let e1 = self.number("_")?;
        let e2 = self.number(mark)?;
        let e3 = self.flag("_")?;
        self.undefined(last)?;
        let e5 = self.flag(next)?;
        if let (Some(e1), Some(e2), Some(e3)) = (e1, e2, e3) {
            Ok(
                Some(
                    AccentPhrasePrevNext {
                        mora_count: e1,
                        accent_position: e2,
                        is_interrogative: e3,
                        is_pause_insertion: match e5 {
                            Some(flag) => Some(!flag),
                            None => None,
                        },
                    },
                ),
            )
        } else {
            Ok(None)
        }
    }

    /// `/E:e1_e2!e3_e4-e5`
    fn e(&mut self) -> (r: Result<Option<AccentPhrasePrevNext>, ParseError>)
        requires
            old(self).wf(),
        ensures
            final(self).wf(),
            match r {
                Ok(phrase) => accent_phrase_block(old(self).rest(), "!"@, "-"@, "/F:"@) == Ok::<
                    (Option<AccentPhrasePrevNext>, Seq<char>),
                    LabelFault,
                >((phrase, final(self).rest())),
                Err(e) => accent_phrase_block(old(self).rest(), "!"@, "-"@, "/F:"@) == Err::<
                    (Option<AccentPhrasePrevNext>, Seq<char>),
                    LabelFault,
                >(e@),
            },
    {
        self.accent_phrase("!", "-", "/F:")
    }

    /// `/F:f1_f2#f3_f4@f5_f6|f7_f8`
    fn f(&mut self) -> (r: Result<Option<AccentPhraseCurrent>, ParseError>)
        requires
            old(self).wf(),
        ensures
            final(self).wf(),
            match r {
                Ok(phrase) => f_block(old(self).rest()) == Ok::<
                    (Option<AccentPhraseCurrent>, Seq<char>),
                    LabelFault,
                >((phrase, final(self).rest())),
                Err(e) => f_block(old(self).rest()) == Err::<
                    (Option<AccentPhraseCurrent>, Seq<char>),
                    LabelFault,
                >(e@),
            },
    {
        reveal(f_block);
        reveal_with_fuel(first_fault, 9);
        let f1 = self.number("_")?;
        let f2 = self.number("#")?;
        let f3 = self.flag("_")?;
        self.undefined("@")?;
        let f5 = self.number("_")?;
        let f6 = self.number("|")?;
        let f7 = self.number("_")?;
        let f8 = self.number("/G:")?;
        if let (Some(f1), Some(f2), Some(f3), Some(f5), Some(f6), Some(f7), Some(f8)) = (
            f1,
            f2,
            f3,
            f5,
            f6,
            f7,
            f8,
        ) {
            Ok(
                Some(
                    AccentPhraseCurrent {
                        mora_count: f1,
                        accent_position: f2,
                        is_interrogative: f3,
                        accent_phrase_position_forward: f5,
                        accent_phrase_position_backward: f6,
                        mora_position_forward: f7,
                        mora_position_backward: f8,
                    },
                ),
            )
        } else {
            Ok(None)
        }
    }

    /// `/G:g1_g2%g3_g4_g5`
    fn g(&mut self) -> (r: Result<Option<AccentPhrasePrevNext>, ParseError>)
        requires
            old(self).wf(),
        ensures
            final(self).wf(),
            match r {
                Ok(phrase) => accent_phrase_block(old(self).rest(), "%"@, "_"@, "/H:"@) == Ok::<
                    (Option<AccentPhrasePrevNext>, Seq<char>),
                    LabelFault,
                >((phrase, final(self).rest())),
                Err(e) => accent_phrase_block(old(self).rest(), "%"@, "_"@, "/H:"@) == Err::<
                    (Option<AccentPhrasePrevNext>, Seq<char>),
                    LabelFault,
                >(e@),
            },
    {
        self.accent_phrase("%", "_", "/H:")
    }

    fn breath_group(&mut self, next: &'static str) -> (r: Result<
        Option<BreathGroupPrevNext>,
        ParseError,
    >)
        requires
            old(self).wf(),
        ensures
            final(self).wf(),
            match r {
                Ok(group) => breath_group_block(old(self).rest(), next@) == Ok::<
                    (Option<BreathGroupPrevNext>, Seq<char>),
                    LabelFault,
                >((group, final(self).rest())),
                Err(e) => breath_group_block(old(self).rest(), next@) == Err::<
                    (Option<BreathGroupPrevNext>, Seq<char>),
                    LabelFault,
                >(e@),
            },
    {
        reveal(breath_group_block);
        reveal_with_fuel(first_fault, 3);
        let h1 = self.number("_")?;
        let h2 = self.number(next)?;
        if let (Some(h1), Some(h2)) = (h1, h2) {
            Ok(Some(BreathGroupPrevNext { accent_phrase_count: h1, mora_count: h2 }))
        } else {
            Ok(None)
        }
    }

    /// `/H:h1_h2`
    fn h(&mut self) -> (r: Result<Option<BreathGroupPrevNext>, ParseError>)
        requires
            old(self).wf(),
        ensures
            final(self).wf(),
            match r {
                Ok(group) => breath_group_block(old(self).rest(), "/I:"@) == Ok::<
                    (Option<BreathGroupPrevNext>, Seq<char>),
                    LabelFault,
                >((group, final(self).rest())),
                Err(e) => breath_group_block(old(self).rest(), "/I:"@) == Err::<
                    (Option<BreathGroupPrevNext>, Seq<char>),
                    LabelFault,
                >(e@),
            },
    {
        self.breath_group("/I:")
    }

    /// `/I:i1-i2@i3+i4&i5-i6|i7+i8`
    fn i(&mut self) -> (r: Result<Option<BreathGroupCurrent>, ParseError>)
        requires
            old(self).wf(),
        ensures
            final(self).wf(),
            match r {
                Ok(group) => i_block(old(self).rest()) == Ok::<
                    (Option<BreathGroupCurrent>, Seq<char>),
                    LabelFault,
                >((group, final(self).rest())),
                Err(e) => i_block(old(self).rest()) == Err::<
                    (Option<BreathGroupCurrent>, Seq<char>),
                    LabelFault,
                >(e@),
            },
    {
        reveal(i_block);
        reveal_with_fuel(first_fault, 9);
        let i1 = self.number("-")?;
        let i2 = self.number("@")?;
        let i3 = self.number("+")?;
        let i4 = self.number("&")?;
        let i5 = self.number("-")?;
        let i6 = self.number("|")?;
        let i7 = self.number("+")?;
        let i8 = self.number("/J:")?;
        if let (
            Some(i1),
            Some(i2),
            Some(i3),
            Some(i4),
            Some(i5),
            Some(i6),
            Some(i7),
            Some(i8),
        ) = (i1, i2, i3, i4, i5, i6, i7, i8) {
            Ok(
                Some(
                    BreathGroupCurrent {
                        accent_phrase_count: i1,
                        mora_count: i2,
                        breath_group_position_forward: i3,
                        breath_group_position_backward: i4,
                        accent_phrase_position_forward: i5,
                        accent_phrase_position_backward: i6,
                        mora_position_forward: i7,
                        mora_position_backward: i8,
                    },
                ),
            )
        } else {
            Ok(None)
        }
    }

    /// `/J:j1_j2`
    fn j(&mut self) -> (r: Result<Option<BreathGroupPrevNext>, ParseError>)
        requires
            old(self).wf(),
        ensures
            final(self).wf(),
            match r {
                Ok(group) => breath_group_block(old(self).rest(), "/K:"@) == Ok::<
                    (Option<BreathGroupPrevNext>, Seq<char>),
                    LabelFault,
                >((group, final(self).rest())),
                Err(e) => breath_group_block(old(self).rest(), "/K:"@) == Err::<
                    (Option<BreathGroupPrevNext>, Seq<char>),
                    LabelFault,
                >(e@),
            },
    {
        self.breath_group("/K:")
    }

    /// `/K:k1+k2-k3`
    fn k(&mut self) -> (r: Result<Utterance, ParseError>)
        requires
            old(self).wf(),
        ensures
            final(self).wf(),
            match r {
                Ok(utterance) => k_block(old(self).rest()) == Ok::<Utterance, LabelFault>(utterance),
                Err(e) => k_block(old(self).rest()) == Err::<Utterance, LabelFault>(e@),
            },
    {
        reveal(k_block);
        reveal_with_fuel(first_fault, 4);
        let k1 = self.count("+")?;
        let k2 = self.count("-")?;
        let tail = self.input.substring_char(self.index, self.chars.len());
        assert(tail@ =~= self.rest());
        let k3 = match parse_u8(tail) {
            Ok(value) => value,
            Err(e) => {
                return Err(ParseError::ParseIntError(e));
            },
        };
        Ok(Utterance { breath_group_count: k1, accent_phrase_count: k2, mora_count: k3 })
    }

    /// Reads the whole label.
    pub fn consume(self) -> (r: Result<Label, ParseError>)
        requires
            self.wf(),
        ensures
            match r {
                Ok(label) => label_of(self.rest()) == Ok::<LabelModel, LabelFault>(label@),
                Err(e) => label_of(self.rest()) == Err::<LabelModel, LabelFault>(e@),
            },
    {
        reveal_with_fuel(first_fault, 13);
        let mut tokenizer = self;
        let phoneme = tokenizer.p()?;
        let mora = tokenizer.a()?;
        let word_prev = tokenizer.b()?;
        let word_curr = tokenizer.c()?;
        let word_next = tokenizer.d()?;
        let accent_phrase_prev = tokenizer.e()?;
        let accent_phrase_curr = tokenizer.f()?;
        let accent_phrase_next = tokenizer.g()?;
        let breath_group_prev = tokenizer.h()?;
        let breath_group_curr = tokenizer.i()?;
        let breath_group_next = tokenizer.j()?;
        let utterance = tokenizer.k()?;
        Ok(
            Label {
                phoneme,
                mora,
                word_prev,
                word_curr,
                word_next,
                accent_phrase_prev,
                accent_phrase_curr,
                accent_phrase_next,
                breath_group_prev,
                breath_group_curr,
                breath_group_next,
                utterance,
            },
        )
    }
}

impl FromStr for Label {
    type Err = ParseError;

    /// Reads a label from the line of text that stands for it.
    fn from_str(s: &str) -> (r: Result<Label, ParseError>)
        ensures
            match r {
                Ok(label) => label_of(s@) == Ok::<LabelModel, LabelFault>(label@),
                Err(e) => label_of(s@) == Err::<LabelModel, LabelFault>(e@),
            },
    {
        LabelTokenizer::new(s).consume()
    }
}

} // verus!
