//! From a label to the line of text that stands for it.

use vstd::prelude::*;
use vstd::string::StringExecFns;
use crate::label::{
    AccentPhraseCurrent, AccentPhrasePrevNext, BreathGroupCurrent, BreathGroupPrevNext, Label,
    Mora, Phoneme, Utterance, Word,
};

verus! {

/// The digit that stands for `d`.
pub open spec fn digit_text(d: int) -> Seq<char> {
    if d == 0 {
        "0"@
    } else if d == 1 {
        "1"@
    } else if d == 2 {
        "2"@
    } else if d == 3 {
        "3"@
    } else if d == 4 {
        "4"@
    } else if d == 5 {
        "5"@
    } else if d == 6 {
        "6"@
    } else if d == 7 {
        "7"@
    } else if d == 8 {
        "8"@
    } else {
        "9"@
    }
}

/// The digits of a natural number, without leading zeros.
pub open spec fn natural_text(n: int) -> Seq<char>
    decreases n,
{
    if n < 10 {
        digit_text(n)
    } else {
        natural_text(n / 10) + digit_text(n % 10)
    }
}

/// An integer in decimal, with a minus where it is negative.
pub open spec fn integer_text(n: int) -> Seq<char> {
    if n < 0 {
        "-"@ + natural_text(-n)
    } else {
        natural_text(n)
    }
}

/// A natural number in at least two digits.
pub open spec fn padded_text(n: int) -> Seq<char> {
    if n < 10 {
        "0"@ + natural_text(n)
    } else {
        natural_text(n)
    }
}

/// What stands for a field that is not defined.
pub open spec fn xx_text() -> Seq<char> {
    "xx"@
}

/// `xx`, and behind each of the separators `xx` again.
pub open spec fn all_xx_text(separators: Seq<Seq<char>>) -> Seq<char>
    decreases separators.len(),
{
    if separators.len() == 0 {
        xx_text()
    } else {
        all_xx_text(separators.drop_last()) + separators.last() + xx_text()
    }
}

/// A phoneme, or `xx`.
pub open spec fn phone_text(phone: Option<String>) -> Seq<char> {
    match phone {
        Some(s) => s@,
        None => xx_text(),
    }
}

/// A number, or `xx`.
pub open spec fn number_or_xx_text(value: Option<u8>) -> Seq<char> {
    match value {
        Some(v) => natural_text(v as int),
        None => xx_text(),
    }
}

/// A number in at least two digits, or `xx`.
pub open spec fn padded_or_xx_text(value: Option<u8>) -> Seq<char> {
    match value {
        Some(v) => padded_text(v as int),
        None => xx_text(),
    }
}

/// `1` for true, `0` for false.
pub open spec fn bool_text(value: bool) -> Seq<char> {
    if value {
        "1"@
    } else {
        "0"@
    }
}

/// `1`, `0`, or `xx`.
pub open spec fn bool_or_xx_text(value: Option<bool>) -> Seq<char> {
    match value {
        Some(v) => bool_text(v),
        None => xx_text(),
    }
}

/// A flag with its polarity inverted, where it is defined.
pub open spec fn inverted(value: Option<bool>) -> Option<bool> {
    match value {
        Some(v) => Some(!v),
        None => None,
    }
}

/// `p1^p2-p3+p4=p5`
pub open spec fn p_text(phoneme: Phoneme) -> Seq<char> {
    phone_text(phoneme.p2) + "^"@ + phone_text(phoneme.p1) + "-"@ + phone_text(phoneme.c) + "+"@
        + phone_text(phoneme.n1) + "="@ + phone_text(phoneme.n2)
}

/// `/A:a1+a2+a3`
pub open spec fn a_text(mora: Option<Mora>) -> Seq<char> {
    "/A:"@ + match mora {
        Some(m) => integer_text(m.relative_accent_position as int) + "+"@ + natural_text(
            m.position_forward as int,
        ) + "+"@ + natural_text(m.position_backward as int),
        None => all_xx_text(seq!["+"@, "+"@]),
    }
}

/// `b1-b2_b3`, `c1_c2+c3` or `d1+d2_d3`, behind the tag of the block.
pub open spec fn word_text(
    tag: Seq<char>,
    word: Option<Word>,
    first: Seq<char>,
    second: Seq<char>,
) -> Seq<char> {
    tag + match word {
        Some(w) => padded_or_xx_text(w.pos) + first + number_or_xx_text(w.ctype) + second
            + number_or_xx_text(w.cform),
        None => all_xx_text(seq![first, second]),
    }
}

/// `e1_e2!e3_e4-e5` or `g1_g2%g3_g4_g5`. The last field is written with
/// inverted polarity.
pub open spec fn accent_phrase_fields_text(
    a: AccentPhrasePrevNext,
    mark: Seq<char>,
    last: Seq<char>,
) -> Seq<char> {
    natural_text(a.mora_count as int) + "_"@ + natural_text(a.accent_position as int) + mark
        + bool_text(a.is_interrogative) + "_"@ + xx_text() + last + bool_or_xx_text(
        inverted(a.is_pause_insertion),
    )
}

/// The previous or the next accent phrase, behind the tag of the block.
pub open spec fn accent_phrase_text(
    tag: Seq<char>,
    phrase: Option<AccentPhrasePrevNext>,
    mark: Seq<char>,
    last: Seq<char>,
) -> Seq<char> {
    tag + match phrase {
        Some(a) => accent_phrase_fields_text(a, mark, last),
        None => all_xx_text(seq!["_"@, mark, "_"@, last]),
    }
}

/// `f1_f2#f3_f4`
pub open spec fn f_front_text(a: AccentPhraseCurrent) -> Seq<char> {
    natural_text(a.mora_count as int) + "_"@ + natural_text(a.accent_position as int) + "#"@
        + bool_text(a.is_interrogative) + "_"@ + xx_text()
}

/// `@f5_f6|f7_f8`
pub open spec fn f_back_text(a: AccentPhraseCurrent) -> Seq<char> {
    "@"@ + natural_text(a.accent_phrase_position_forward as int) + "_"@ + natural_text(
        a.accent_phrase_position_backward as int,
    ) + "|"@ + natural_text(a.mora_position_forward as int) + "_"@ + natural_text(
        a.mora_position_backward as int,
    )
}

/// `/F:f1_f2#f3_f4@f5_f6|f7_f8`
pub open spec fn f_text(phrase: Option<AccentPhraseCurrent>) -> Seq<char> {
    "/F:"@ + match phrase {
        Some(a) => f_front_text(a) + f_back_text(a),
        None => all_xx_text(seq!["_"@, "#"@, "_"@, "@"@, "_"@, "|"@, "_"@]),
    }
}

/// `h1_h2` or `j1_j2`, behind the tag of the block.
pub open spec fn breath_group_text(tag: Seq<char>, group: Option<BreathGroupPrevNext>) -> Seq<
    char,
> {
    tag + match group {
        Some(b) => natural_text(b.accent_phrase_count as int) + "_"@ + natural_text(
            b.mora_count as int,
        ),
        None => all_xx_text(seq!["_"@]),
    }
}

/// `i1-i2@i3+i4`
pub open spec fn i_front_text(b: BreathGroupCurrent) -> Seq<char> {
    natural_text(b.accent_phrase_count as int) + "-"@ + natural_text(b.mora_count as int) + "@"@
        + natural_text(b.breath_group_position_forward as int) + "+"@ + natural_text(
        b.breath_group_position_backward as int,
    )
}

/// `&i5-i6|i7+i8`
pub open spec fn i_back_text(b: BreathGroupCurrent) -> Seq<char> {
    "&"@ + natural_text(b.accent_phrase_position_forward as int) + "-"@ + natural_text(
        b.accent_phrase_position_backward as int,
    ) + "|"@ + natural_text(b.mora_position_forward as int) + "+"@ + natural_text(
        b.mora_position_backward as int,
    )
}

/// `/I:i1-i2@i3+i4&i5-i6|i7+i8`
pub open spec fn i_text(group: Option<BreathGroupCurrent>) -> Seq<char> {
    "/I:"@ + match group {
        Some(b) => i_front_text(b) + i_back_text(b),
        None => all_xx_text(seq!["-"@, "@"@, "+"@, "&"@, "-"@, "|"@, "+"@]),
    }
}

/// `/K:k1+k2-k3`
pub open spec fn k_text(utterance: Utterance) -> Seq<char> {
    "/K:"@ + natural_text(utterance.breath_group_count as int) + "+"@ + natural_text(
        utterance.accent_phrase_count as int,
    ) + "-"@ + natural_text(utterance.mora_count as int)
}

/// The line of text that stands for a label.
pub open spec fn label_text(label: Label) -> Seq<char> {
    p_text(label.phoneme) + a_text(label.mora) + word_text("/B:"@, label.word_prev, "-"@, "_"@)
        + word_text("/C:"@, label.word_curr, "_"@, "+"@) + word_text(
        "/D:"@,
        label.word_next,
        "+"@,
        "_"@,
    ) + accent_phrase_text("/E:"@, label.accent_phrase_prev, "!"@, "-"@) + f_text(
        label.accent_phrase_curr,
    ) + accent_phrase_text("/G:"@, label.accent_phrase_next, "%"@, "_"@) + breath_group_text(
        "/H:"@,
        label.breath_group_prev,
    ) + i_text(label.breath_group_curr) + breath_group_text("/J:"@, label.breath_group_next)
        + k_text(label.utterance)
}

/// Writes a label into a string, field by field.
pub struct Serializer {
    out: String,
}

impl Serializer {
    /// What has been written so far.
    pub closed spec fn written(&self) -> Seq<char> {
        self.out@
    }

    /// A serializer that has written nothing.
    pub fn new() -> (s: Self)
        ensures
            s.written() == Seq::<char>::empty(),
    {
        Self { out: String::new() }
    }

    /// The text written.
    pub fn finish(self) -> (text: String)
        ensures
            text@ == self.written(),
    {
        self.out
    }

    fn put(&mut self, text: &str)
        ensures
            final(self).written() == old(self).written() + text@,
    {
        self.out.append(text);
    }

    fn xx(&mut self)
        ensures
            final(self).written() == old(self).written() + xx_text(),
    {
        self.put("xx");
    }

    fn all_xx(&mut self, separators: &[&str])
        ensures
            final(self).written() == old(self).written() + all_xx_text(
                Seq::new(separators@.len(), |i: int| separators@[i]@),
            ),
    {
        let ghost seps = Seq::new(separators@.len(), |i: int| separators@[i]@);
        self.xx();
        let mut i: usize = 0;
        assert(seps.take(0) =~= Seq::empty());
        while i < separators.len()
            invariant
                i <= separators.len(),
                seps == Seq::new(separators@.len(), |i: int| separators@[i]@),
                self.written() == old(self).written() + all_xx_text(seps.take(i as int)),
            decreases separators.len() - i,
        {
            let ghost before = self.written();
            self.put(separators[i]);
            self.xx();
            proof {
                assert(seps.take(i + 1).drop_last() =~= seps.take(i as int));
                assert(seps.take(i + 1).last() == separators@[i as int]@);
                assert(self.written() =~= old(self).written() + all_xx_text(seps.take(i + 1)));
            }
            i = i + 1;
        }
        assert(seps.take(i as int) =~= seps);
    }

    fn digit(&mut self, d: u8)
        requires
            d < 10,
        ensures
            final(self).written() == old(self).written() + digit_text(d as int),
    {
        let text = if d == 0 {
            "0"
        } else if d == 1 {
            "1"
        } else if d == 2 {
            "2"
        } else if d == 3 {
            "3"
        } else if d == 4 {
            "4"
        } else if d == 5 {
            "5"
        } else if d == 6 {
            "6"
        } else if d == 7 {
            "7"
        } else if d == 8 {
            "8"
        } else {
            "9"
        };
        self.put(text);
    }

    fn natural(&mut self, value: u8)
        ensures
            final(self).written() == old(self).written() + natural_text(value as int),
    {
        if value >= 100 {
            self.digit(value / 100);
            self.digit((value / 10) % 10);
            self.digit(value % 10);
            proof {
                let n = value as int;
                assert(natural_text(n / 10 / 10) == digit_text(n / 100));
                assert(natural_text(n / 10) == natural_text(n / 10 / 10) + digit_text(
                    (n / 10) % 10,
                ));
                assert(self.written() =~= old(self).written() + natural_text(n));
            }
        } else if value >= 10 {
            self.digit(value / 10);
            self.digit(value % 10);
            proof {
                let n = value as int;
                assert(natural_text(n / 10) == digit_text(n / 10));
                assert(self.written() =~= old(self).written() + natural_text(n));
            }
        } else {
            self.digit(value);
        }
    }

    fn integer(&mut self, value: i8)
        ensures
            final(self).written() == old(self).written() + integer_text(value as int),
    {
        if value < 0 {
            self.put("-");
            let magnitude: u8 = (-(value as i16)) as u8;
            self.natural(magnitude);
            assert(self.written() =~= old(self).written() + integer_text(value as int));
        } else {
            self.natural(value as u8);
        }
    }

    fn or_xx(&mut self, value: &Option<String>)
        ensures
            final(self).written() == old(self).written() + phone_text(*value),
    {
        match value {
            Some(v) => self.put(v.as_str()),
            None => self.xx(),
        }
    }

    fn d01_or_xx(&mut self, value: &Option<u8>)
        ensures
            final(self).written() == old(self).written() + number_or_xx_text(*value),
    {
        match value {
            Some(v) => self.natural(*v),
            None => self.xx(),
        }
    }

    fn d02_or_xx(&mut self, value: &Option<u8>)
        ensures
            final(self).written() == old(self).written() + padded_or_xx_text(*value),
    {
        match value {
            Some(v) => {
                if *v < 10 {
                    self.put("0");
                    self.natural(*v);
                    assert(self.written() =~= old(self).written() + padded_text(*v as int));
                } else {
                    self.natural(*v);
                }
            },
            None => self.xx(),
        }
    }

    fn bool(&mut self, value: bool)
        ensures
            final(self).written() == old(self).written() + bool_text(value),
    {
        if value {
            self.put("1")
        } else {
            self.put("0")
        }
    }

    fn bool_or_xx(&mut self, value: &Option<bool>)
        ensures
            final(self).written() == old(self).written() + bool_or_xx_text(*value),
    {
        match value {
            Some(v) => self.bool(*v),
            None => self.xx(),
        }
    }

    /// `p1^p2-p3+p4=p5`
    fn p(&mut self, phoneme: &Phoneme)
        ensures
            final(self).written() == old(self).written() + p_text(*phoneme),
    {
        self.or_xx(&phoneme.p2);
        self.put("^");
        self.or_xx(&phoneme.p1);
        self.put("-");
        self.or_xx(&phoneme.c);
        self.put("+");
        self.or_xx(&phoneme.n1);
        self.put("=");
        self.or_xx(&phoneme.n2);
        assert(self.written() =~= old(self).written() + p_text(*phoneme));
    }

    /// `/A:a1+a2+a3`
    fn a(&mut self, mora: &Option<Mora>)
        ensures
            final(self).written() == old(self).written() + a_text(*mora),
    {
        self.put("/A:");
        if let Some(mora) = mora {
            self.integer(mora.relative_accent_position);
            self.put("+");
            self.natural(mora.position_forward);
            self.put("+");
            self.natural(mora.position_backward);
        } else {
            let separators = ["+", "+"];
            assert(Seq::new(separators@.len(), |i: int| separators@[i]@) =~= seq!["+"@, "+"@]);
            self.all_xx(separators.as_slice());
        }
        assert(self.written() =~= old(self).written() + a_text(*mora));
    }

    fn word(&mut self, tag: &str, word: &Option<Word>, first: &str, second: &str)
        ensures
            final(self).written() == old(self).written() + word_text(
                tag@,
                *word,
                first@,
                second@,
            ),
    {
        self.put(tag);
        if let Some(word) = word {
            self.d02_or_xx(&word.pos);
            self.put(first);
            self.d01_or_xx(&word.ctype);
            self.put(second);
            self.d01_or_xx(&word.cform);
        } else {
            let separators = [first, second];
            assert(Seq::new(separators@.len(), |i: int| separators@[i]@) =~= seq![
                first@,
                second@,
            ]);
            self.all_xx(separators.as_slice());
        }
        assert(self.written() =~= old(self).written() + word_text(tag@, *word, first@, second@));
    }

    /// `/B:b1-b2_b3`
    fn b(&mut self, word_prev: &Option<Word>)
        ensures
            final(self).written() == old(self).written() + word_text(
                "/B:"@,
                *word_prev,
                "-"@,
                "_"@,
            ),
    {
        self.word("/B:", word_prev, "-", "_");
    }

    /// `/C:c1_c2+c3`
    fn c(&mut self, word_curr: &Option<Word>)
        ensures
            final(self).written() == old(self).written() + word_text(
                "/C:"@,
                *word_curr,
                "_"@,
                "+"@,
            ),
    {
        self.word("/C:", word_curr, "_", "+");
    }

    /// `/D:d1+d2_d3`
    fn d(&mut self, word_next: &Option<Word>)
        ensures
            final(self).written() == old(self).written() + word_text(
                "/D:"@,
                *word_next,
                "+"@,
                "_"@,
            ),
    {
        self.word("/D:", word_next, "+", "_");
    }

    fn accent_phrase_fields(&mut self, phrase: &AccentPhrasePrevNext, mark: &str, last: &str)
        ensures
            final(self).written() == old(self).written() + accent_phrase_fields_text(
                *phrase,
                mark@,
                last@,
            ),
    {
        self.natural(phrase.mora_count);
        self.put("_");
        self.natural(phrase.accent_position);
        self.put(mark);
        self.bool(phrase.is_interrogative);
        self.put("_");
        self.xx();
        self.put(last);
        let pause = match phrase.is_pause_insertion {
            Some(value) => Some(!value),
            None => None,
        };
        self.bool_or_xx(&pause);
        assert(self.written() =~= old(self).written() + accent_phrase_fields_text(
            *phrase,
            mark@,
            last@,
        ));
    }

    fn accent_phrase(
        &mut self,
        tag: &str,
        phrase: &Option<AccentPhrasePrevNext>,
        mark: &str,
        last: &str,
    )
        ensures
            final(self).written() == old(self).written() + accent_phrase_text(
                tag@,
                *phrase,
                mark@,
                last@,
            ),
    {
        self.put(tag);
        if let Some(phrase) = phrase {
            self.accent_phrase_fields(phrase, mark, last);
        } else {
            let separators = ["_", mark, "_", last];
            assert(Seq::new(separators@.len(), |i: int| separators@[i]@) =~= seq![
                "_"@,
                mark@,
                "_"@,
                last@,
            ]);
            self.all_xx(separators.as_slice());
        }
        assert(self.written() =~= old(self).written() + accent_phrase_text(
            tag@,
            *phrase,
            mark@,
            last@,
        ));
    }

    /// `/E:e1_e2!e3_e4-e5`
    fn e(&mut self, accent_phrase_prev: &Option<AccentPhrasePrevNext>)
        ensures
            final(self).written() == old(self).written() + accent_phrase_text(
                "/E:"@,
                *accent_phrase_prev,
                "!"@,
                "-"@,
            ),
    {
        self.accent_phrase("/E:", accent_phrase_prev, "!", "-");
    }

    fn f_front(&mut self, phrase: &AccentPhraseCurrent)
        ensures
            final(self).written() == old(self).written() + f_front_text(*phrase),
    {
        self.natural(phrase.mora_count);
        self.put("_");
        self.natural(phrase.accent_position);
        self.put("#");
        self.bool(phrase.is_interrogative);
        self.put("_");
        self.xx();
        assert(self.written() =~= old(self).written() + f_front_text(*phrase));
    }

    fn f_back(&mut self, phrase: &AccentPhraseCurrent)
        ensures
            final(self).written() == old(self).written() + f_back_text(*phrase),
    {
        self.put("@");
        self.natural(phrase.accent_phrase_position_forward);
        self.put("_");
        self.natural(phrase.accent_phrase_position_backward);
        self.put("|");
        self.natural(phrase.mora_position_forward);
        self.put("_");
        self.natural(phrase.mora_position_backward);
        assert(self.written() =~= old(self).written() + f_back_text(*phrase));
    }

    /// `/F:f1_f2#f3_f4@f5_f6|f7_f8`
    fn f(&mut self, accent_phrase_curr: &Option<AccentPhraseCurrent>)
        ensures
            final(self).written() == old(self).written() + f_text(*accent_phrase_curr),
    {
        self.put("/F:");
        if let Some(phrase) = accent_phrase_curr {
            self.f_front(phrase);
            self.f_back(phrase);
        } else {
            let separators = ["_", "#", "_", "@", "_", "|", "_"];
            assert(Seq::new(separators@.len(), |i: int| separators@[i]@) =~= seq![
                "_"@,
                "#"@,
                "_"@,
                "@"@,
                "_"@,
                "|"@,
                "_"@,
            ]);
            self.all_xx(separators.as_slice());
        }
        assert(self.written() =~= old(self).written() + f_text(*accent_phrase_curr));
    }

    /// `/G:g1_g2%g3_g4_g5`
    fn g(&mut self, accent_phrase_next: &Option<AccentPhrasePrevNext>)
        ensures
            final(self).written() == old(self).written() + accent_phrase_text(
                "/G:"@,
                *accent_phrase_next,
                "%"@,
                "_"@,
            ),
    {
        self.accent_phrase("/G:", accent_phrase_next, "%", "_");
    }

    fn breath_group(&mut self, tag: &str, group: &Option<BreathGroupPrevNext>)
        ensures
            final(self).written() == old(self).written() + breath_group_text(tag@, *group),
    {
        self.put(tag);
        if let Some(group) = group {
            self.natural(group.accent_phrase_count);
            self.put("_");
            self.natural(group.mora_count);
        } else {
            let separators = ["_"];
            assert(Seq::new(separators@.len(), |i: int| separators@[i]@) =~= seq!["_"@]);
            self.all_xx(separators.as_slice());
        }
        assert(self.written() =~= old(self).written() + breath_group_text(tag@, *group));
    }

    /// `/H:h1_h2`
    fn h(&mut self, breath_group_prev: &Option<BreathGroupPrevNext>)
        ensures
            final(self).written() == old(self).written() + breath_group_text(
                "/H:"@,
                *breath_group_prev,
            ),
    {
        self.breath_group("/H:", breath_group_prev);
    }

    fn i_front(&mut self, group: &BreathGroupCurrent)
        ensures
            final(self).written() == old(self).written() + i_front_text(*group),
    {
        self.natural(group.accent_phrase_count);
        self.put("-");
        self.natural(group.mora_count);
        self.put("@");
        self.natural(group.breath_group_position_forward);
        self.put("+");
        self.natural(group.breath_group_position_backward);
        assert(self.written() =~= old(self).written() + i_front_text(*group));
    }

    fn i_back(&mut self, group: &BreathGroupCurrent)
        ensures
            final(self).written() == old(self).written() + i_back_text(*group),
    {
        self.put("&");
        self.natural(group.accent_phrase_position_forward);
        self.put("-");
        self.natural(group.accent_phrase_position_backward);
        self.put("|");
        self.natural(group.mora_position_forward);
        self.put("+");
        self.natural(group.mora_position_backward);
        assert(self.written() =~= old(self).written() + i_back_text(*group));
    }

    /// `/I:i1-i2@i3+i4&i5-i6|i7+i8`
    fn i(&mut self, breath_group_curr: &Option<BreathGroupCurrent>)
        ensures
            final(self).written() == old(self).written() + i_text(*breath_group_curr),
    {
        self.put("/I:");
        if let Some(group) = breath_group_curr {
            self.i_front(group);
            self.i_back(group);
        } else {
            let separators = ["-", "@", "+", "&", "-", "|", "+"];
            assert(Seq::new(separators@.len(), |i: int| separators@[i]@) =~= seq![
                "-"@,
                "@"@,
                "+"@,
                "&"@,
                "-"@,
                "|"@,
                "+"@,
            ]);
            self.all_xx(separators.as_slice());
        }
        assert(self.written() =~= old(self).written() + i_text(*breath_group_curr));
    }

    /// `/J:j1_j2`
    fn j(&mut self, breath_group_next: &Option<BreathGroupPrevNext>)
        ensures
            final(self).written() == old(self).written() + breath_group_text(
                "/J:"@,
                *breath_group_next,
            ),
    {
        self.breath_group("/J:", breath_group_next);
    }

    /// `/K:k1+k2-k3`
    fn k(&mut self, utterance: &Utterance)
        ensures
            final(self).written() == old(self).written() + k_text(*utterance),
    {
        self.put("/K:");
        self.natural(utterance.breath_group_count);
        self.put("+");
        self.natural(utterance.accent_phrase_count);
        self.put("-");
        self.natural(utterance.mora_count);
        assert(self.written() =~= old(self).written() + k_text(*utterance));
    }

    /// Writes a label, block by block.
    pub fn fmt(&mut self, label: &Label)
        ensures
            final(self).written() == old(self).written() + label_text(*label),
    {
        self.p(&label.phoneme);
        self.a(&label.mora);
        self.b(&label.word_prev);
        self.c(&label.word_curr);
        self.d(&label.word_next);
        self.e(&label.accent_phrase_prev);
        self.f(&label.accent_phrase_curr);
        self.g(&label.accent_phrase_next);
        self.h(&label.breath_group_prev);
        self.i(&label.breath_group_curr);
        self.j(&label.breath_group_next);
        self.k(&label.utterance);
        assert(self.written() =~= old(self).written() + label_text(*label));
    }
}

impl Label {
    /// The line of text that stands for this label.
    pub fn to_string(&self) -> (text: String)
        ensures
            text@ == label_text(*self),
    {
        let mut serializer = Serializer::new();
        serializer.fmt(self);
        assert(Seq::<char>::empty() + label_text(*self) =~= label_text(*self));
        serializer.finish()
    }
}

} // verus!
