//! From a pattern to the position that it points at.
//!
//! A pattern never names its position. The characters that delimit the fields
//! of a label do: the pattern is cut into the delimiter before its range
//! section, the range section and the delimiter behind it, and the two
//! delimiters are looked up.

use vstd::prelude::*;
use crate::error::PositionError;
use crate::position::AllPosition;
use crate::position::BooleanPosition::{E3, E5, F3, G3, G5};
use crate::position::CategoryPosition::{B1, B2, B3, C1, C2, C3, D1, D2, D3};
use crate::position::PhonePosition::{P1, P2, P3, P4, P5};
use crate::position::SignedRangePosition::A1;
use crate::position::UndefinedPotision::{E4, F4, G4};
use crate::position::UnsignedRangePosition::{
    A2, A3, E1, E2, F1, F2, F5, F6, F7, F8, G1, G2, H1, H2, I1, I2, I3, I4, I5, I6, I7, I8, J1, J2,
    K1, K2, K3,
};
use crate::position::AllPosition::{Boolean, Category, Phone, SignedRange, Undefined, UnsignedRange};
use crate::text::{chars_end_with, chars_of, chars_start_with, ends_with, starts_with};

verus! {

/// Whether `c` can end the text before a range section.
pub open spec fn is_opening(c: char) -> bool {
    c == '!' || c == '#' || c == '%' || c == '&' || c == '+' || c == '-' || c == '=' || c == '@'
        || c == '^' || c == '_' || c == '|' || c == ':'
}

/// Whether `c` can start the text behind a range section.
pub open spec fn is_closing(c: char) -> bool {
    c == '!' || c == '#' || c == '%' || c == '&' || c == '+' || c == '-' || c == '=' || c == '@'
        || c == '^' || c == '_' || c == '|' || c == '/'
}

/// The index behind the first opening delimiter of `s`; 0 where `s` has none.
pub open spec fn prefix_cut(s: Seq<char>) -> int
    decreases s.len(),
{
    if s.len() == 0 {
        0
    } else if is_opening(s[0]) {
        1
    } else {
        let rest = prefix_cut(s.drop_first());
        if rest == 0 {
            0
        } else {
            rest + 1
        }
    }
}

/// The index of the last closing delimiter of `s`; the length of `s` where it
/// has none.
pub open spec fn suffix_cut(s: Seq<char>) -> int
    decreases s.len(),
{
    if s.len() == 0 {
        0
    } else if is_closing(s.last()) {
        s.len() - 1
    } else {
        let rest = suffix_cut(s.drop_last());
        if rest == s.len() - 1 {
            s.len() as int
        } else {
            rest
        }
    }
}

/// A pattern in parts, as sequences of characters.
pub struct Split {
    /// The text before the range section, up to its delimiter.
    pub prefix: Seq<char>,
    /// The range section.
    pub range: Seq<char>,
    /// The text behind the range section, from its delimiter on.
    pub suffix: Seq<char>,
    /// Whether the pattern starts with an asterisk.
    pub leading: bool,
    /// Whether the pattern ends with an asterisk.
    pub trailing: bool,
}

/// The pattern without one asterisk at its start and one at its end, and
/// whether it had them.
pub open spec fn trimmed(pattern: Seq<char>) -> (Seq<char>, bool, bool) {
    let leading = pattern.len() > 0 && pattern[0] == '*';
    let rest = if leading {
        pattern.drop_first()
    } else {
        pattern
    };
    let trailing = rest.len() > 0 && rest.last() == '*';
    let body = if trailing {
        rest.drop_last()
    } else {
        rest
    };
    (body, leading, trailing)
}

/// Where the text between the asterisks is cut: behind the first opening
/// delimiter and before the last closing one. Where one delimiter would serve
/// as both, it opens if text follows it, and closes if it ends the text.
pub open spec fn cuts(body: Seq<char>) -> (int, int) {
    let p = prefix_cut(body);
    let q = suffix_cut(body);
    if p > q {
        if p == body.len() {
            (0, q)
        } else {
            (p, body.len() as int)
        }
    } else {
        (p, q)
    }
}

/// The parts of a pattern.
pub open spec fn split_of(pattern: Seq<char>) -> Split {
    let (body, leading, trailing) = trimmed(pattern);
    let (p, q) = cuts(body);
    Split {
        prefix: body.subrange(0, p),
        range: body.subrange(p, q),
        suffix: body.subrange(q, body.len() as int),
        leading,
        trailing,
    }
}

/// The first opening delimiter of `s` stands at `i`.
pub proof fn lemma_prefix_cut_found(s: Seq<char>, i: int)
    requires
        0 <= i < s.len(),
        is_opening(s[i]),
        forall|j: int| 0 <= j < i ==> !is_opening(s[j]),
    ensures
        prefix_cut(s) == i + 1,
    decreases s.len(),
{
    if i > 0 {
        let rest = s.drop_first();
        assert forall|j: int| 0 <= j < i - 1 implies !is_opening(rest[j]) by {
            assert(rest[j] == s[j + 1]);
        }
        assert(rest[i - 1] == s[i]);
        lemma_prefix_cut_found(rest, i - 1);
    }
}

/// `s` has no opening delimiter.
pub proof fn lemma_prefix_cut_none(s: Seq<char>)
    requires
        forall|j: int| 0 <= j < s.len() ==> !is_opening(s[j]),
    ensures
        prefix_cut(s) == 0,
    decreases s.len(),
{
    if s.len() > 0 {
        let rest = s.drop_first();
        assert forall|j: int| 0 <= j < rest.len() implies !is_opening(rest[j]) by {
            assert(rest[j] == s[j + 1]);
        }
        lemma_prefix_cut_none(rest);
    }
}

/// The last closing delimiter of `s` stands at `i`.
pub proof fn lemma_suffix_cut_found(s: Seq<char>, i: int)
    requires
        0 <= i < s.len(),
        is_closing(s[i]),
        forall|j: int| i < j < s.len() ==> !is_closing(s[j]),
    ensures
        suffix_cut(s) == i,
    decreases s.len(),
{
    if i < s.len() - 1 {
        let rest = s.drop_last();
        assert forall|j: int| i < j < rest.len() implies !is_closing(rest[j]) by {
            assert(rest[j] == s[j]);
        }
        assert(rest[i] == s[i]);
        lemma_suffix_cut_found(rest, i);
    }
}

/// `s` has no closing delimiter.
pub proof fn lemma_suffix_cut_none(s: Seq<char>)
    requires
        forall|j: int| 0 <= j < s.len() ==> !is_closing(s[j]),
    ensures
        suffix_cut(s) == s.len(),
    decreases s.len(),
{
    if s.len() > 0 {
        let rest = s.drop_last();
        assert forall|j: int| 0 <= j < rest.len() implies !is_closing(rest[j]) by {
            assert(rest[j] == s[j]);
        }
        lemma_suffix_cut_none(rest);
    }
}

/// A pattern in parts.
#[derive(Debug, Clone, Copy, PartialEq, Eq)]
pub struct PositionSplit<'a> {
    /// The text before the range section, up to its delimiter.
    pub prefix: &'a str,
    /// The range section.
    pub range: &'a str,
    /// The text behind the range section, from its delimiter on.
    pub suffix: &'a str,
    /// Whether the pattern starts, and whether it ends, with an asterisk.
    pub asterisks: (bool, bool),
}

impl<'a> View for PositionSplit<'a> {
    type V = Split;

    open spec fn view(&self) -> Split {
        Split {
            prefix: self.prefix@,
            range: self.range@,
            suffix: self.suffix@,
            leading: self.asterisks.0,
            trailing: self.asterisks.1,
        }
    }
}

/// Whether `c` can end the text before a range section.
fn opens(c: char) -> (r: bool)
    ensures
        r == is_opening(c),
{
    c == '!' || c == '#' || c == '%' || c == '&' || c == '+' || c == '-' || c == '=' || c == '@'
        || c == '^' || c == '_' || c == '|' || c == ':'
}

/// Whether `c` can start the text behind a range section.
fn closes(c: char) -> (r: bool)
    ensures
        r == is_closing(c),
{
    c == '!' || c == '#' || c == '%' || c == '&' || c == '+' || c == '-' || c == '=' || c == '@'
        || c == '^' || c == '_' || c == '|' || c == '/'
}

/// The index behind the first opening delimiter; 0 where there is none.
fn cut_behind_opening(chars: &Vec<char>) -> (cut: usize)
    ensures
        cut == prefix_cut(chars@),
        cut <= chars.len(),
{
    let mut i: usize = 0;
    while i < chars.len()
        invariant
            i <= chars.len(),
            forall|j: int| 0 <= j < i ==> !is_opening(chars@[j]),
        decreases chars.len() - i,
    {
        if opens(chars[i]) {
            proof {
                lemma_prefix_cut_found(chars@, i as int);
            }
            return i + 1;
        }
        i = i + 1;
    }
    proof {
        lemma_prefix_cut_none(chars@);
    }
    0
}

/// The index of the last closing delimiter; the length where there is none.
fn cut_before_closing(chars: &Vec<char>) -> (cut: usize)
    ensures
        cut == suffix_cut(chars@),
        cut <= chars.len(),
{
    let mut k: usize = chars.len();
    while k > 0
        invariant
            k <= chars.len(),
            forall|j: int| k <= j < chars.len() ==> !is_closing(chars@[j]),
        decreases k,
    {
        k = k - 1;
        if closes(chars[k]) {
            proof {
                lemma_suffix_cut_found(chars@, k as int);
            }
            return k;
        }
    }
    proof {
        lemma_suffix_cut_none(chars@);
    }
    chars.len()
}

impl<'a> PositionSplit<'a> {
    /// Cuts a pattern into its parts.
    pub fn new(pattern: &'a str) -> (split: Self)
        ensures
            split@ == split_of(pattern@),
    {
        let (body, asterisks) = Self::trim_asterisk(pattern);
        let chars = chars_of(body);
        let n = chars.len();

        let mut prefix = cut_behind_opening(&chars);
        let mut suffix = cut_before_closing(&chars);
        if prefix > suffix {
            if prefix == n {
                prefix = 0;
            } else {
                suffix = n;
            }
        }
        Self {
            prefix: body.substring_char(0, prefix),
            range: body.substring_char(prefix, suffix),
            suffix: body.substring_char(suffix, n),
            asterisks,
        }
    }

    /// Takes one asterisk off the start and one off the end of a pattern.
    pub fn trim_asterisk(pattern: &'a str) -> (r: (&'a str, (bool, bool)))
        ensures
            (r.0@, r.1.0, r.1.1) == trimmed(pattern@),
    {
        let chars = chars_of(pattern);
        let n = chars.len();
        let leading = n > 0 && chars[0] == '*';
        let from: usize = if leading {
            1
        } else {
            0
        };
        let trailing = n > from && chars[n - 1] == '*';
        let to: usize = if trailing {
            n - 1
        } else {
            n
        };
        let body = pattern.substring_char(from, to);
        proof {
            let rest = if leading {
                pattern@.drop_first()
            } else {
                pattern@
            };
            assert(rest =~= pattern@.subrange(from as int, n as int));
            if trailing {
                assert(rest.last() == chars@[n - 1]);
                assert(rest.drop_last() =~= pattern@.subrange(from as int, to as int));
            }
        }
        (body, (leading, trailing))
    }

    /// The range section, which must not be empty.
    pub fn into_range(self) -> (r: Result<&'a str, PositionError>)
        ensures
            self.range@.len() == 0 ==> r == Err::<&str, PositionError>(PositionError::EmptyRange),
            self.range@.len() > 0 ==> r == Ok::<&str, PositionError>(self.range),
    {
        if self.range.is_empty() {
            return Err(PositionError::EmptyRange);
        }
        Ok(self.range)
    }

    /// The position that the delimiters of the pattern point at.
    pub fn match_position(&self) -> (r: Result<AllPosition, PositionError>)
        ensures
            r == resolve(self@),
    {
        if let Some(position) = position(self.prefix, self.suffix) {
            return Ok(position);
        }
        if self.suffix.is_empty() && !self.asterisks.1 {
            return Ok(UnsignedRange(K3));
        }
        Err(PositionError::NoMatchingPosition)
    }

    /// Holds the pattern against the position that it was found to point at:
    /// its asterisks, then its two delimiters.
    pub fn verify(&self, position: AllPosition) -> (r: Result<(), PositionError>)
        ensures
            r == verdict(self@, position),
    {
        if position != Phone(P1) && !self.asterisks.0 {
            return Err(PositionError::MissingPrefixAsterisk);
        }
        if position != UnsignedRange(K3) && !self.asterisks.1 {
            return Err(PositionError::MissingSuffixAsterisk);
        }
        let (rprefix, rsuffix) = reverse_hint(position);
        let prefix = chars_of(self.prefix);
        let hint = chars_of(rprefix);
        if !chars_end_with(&prefix, &hint) {
            return Err(PositionError::PrefixVerifyError);
        }
        let suffix = chars_of(self.suffix);
        let hint = chars_of(rsuffix);
        if !chars_start_with(&suffix, &hint) {
            return Err(PositionError::SuffixVerifyError);
        }
        Ok(())
    }
}

/// The first field of the block that `letter` names.
pub open spec fn block_first(letter: char) -> Option<AllPosition> {
    if letter == 'A' {
        Some(SignedRange(A1))
    } else if letter == 'B' {
        Some(Category(B1))
    } else if letter == 'C' {
        Some(Category(C1))
    } else if letter == 'D' {
        Some(Category(D1))
    } else if letter == 'E' {
        Some(UnsignedRange(E1))
    } else if letter == 'F' {
        Some(UnsignedRange(F1))
    } else if letter == 'G' {
        Some(UnsignedRange(G1))
    } else if letter == 'H' {
        Some(UnsignedRange(H1))
    } else if letter == 'I' {
        Some(UnsignedRange(I1))
    } else if letter == 'J' {
        Some(UnsignedRange(J1))
    } else if letter == 'K' {
        Some(UnsignedRange(K1))
    } else {
        None
    }
}

/// The last field before the block that `letter` names.
pub open spec fn block_last(letter: char) -> Option<AllPosition> {
    if letter == 'A' {
        Some(Phone(P5))
    } else if letter == 'B' {
        Some(UnsignedRange(A3))
    } else if letter == 'C' {
        Some(Category(B3))
    } else if letter == 'D' {
        Some(Category(C3))
    } else if letter == 'E' {
        Some(Category(D3))
    } else if letter == 'F' {
        Some(Boolean(E5))
    } else if letter == 'G' {
        Some(UnsignedRange(F8))
    } else if letter == 'H' {
        Some(Boolean(G5))
    } else if letter == 'I' {
        Some(UnsignedRange(H2))
    } else if letter == 'J' {
        Some(UnsignedRange(I8))
    } else if letter == 'K' {
        Some(UnsignedRange(J2))
    } else {
        None
    }
}

/// The field behind a delimiter that stands before one field only.
pub open spec fn forward_single(c: char) -> Option<AllPosition> {
    if c == '^' {
        Some(Phone(P2))
    } else if c == '=' {
        Some(Phone(P5))
    } else if c == '!' {
        Some(Boolean(E3))
    } else if c == '#' {
        Some(Boolean(F3))
    } else if c == '%' {
        Some(Boolean(G3))
    } else if c == '&' {
        Some(UnsignedRange(I5))
    } else {
        None
    }
}

/// The field before a delimiter that stands behind one field only.
pub open spec fn backward_single(c: char) -> Option<AllPosition> {
    if c == '^' {
        Some(Phone(P1))
    } else if c == '=' {
        Some(Phone(P4))
    } else if c == '!' {
        Some(UnsignedRange(E2))
    } else if c == '#' {
        Some(UnsignedRange(F2))
    } else if c == '%' {
        Some(UnsignedRange(G2))
    } else if c == '&' {
        Some(UnsignedRange(I4))
    } else {
        None
    }
}

/// The field between two delimiters of which neither decides alone.
pub open spec fn combination(prefix: char, suffix: char) -> Option<AllPosition> {
    if prefix == '-' && suffix == '+' {
        Some(Phone(P3))
    } else if prefix == '+' && suffix == '+' {
        Some(UnsignedRange(A2))
    } else if prefix == '-' && suffix == '_' {
        Some(Category(B2))
    } else if prefix == '_' && suffix == '+' {
        Some(Category(C2))
    } else if prefix == '+' && suffix == '_' {
        Some(Category(D2))
    } else if prefix == '_' && suffix == '-' {
        Some(Undefined(E4))
    } else if prefix == '-' && suffix == '/' {
        Some(Boolean(E5))
    } else if prefix == '_' && suffix == '@' {
        Some(Undefined(F4))
    } else if prefix == '@' && suffix == '_' {
        Some(UnsignedRange(F5))
    } else if prefix == '_' && suffix == '|' {
        Some(UnsignedRange(F6))
    } else if prefix == '|' && suffix == '_' {
        Some(UnsignedRange(F7))
    } else if prefix == '_' && suffix == '_' {
        Some(Undefined(G4))
    } else if prefix == '-' && suffix == '@' {
        Some(UnsignedRange(I2))
    } else if prefix == '@' && suffix == '+' {
        Some(UnsignedRange(I3))
    } else if prefix == '-' && suffix == '|' {
        Some(UnsignedRange(I6))
    } else if prefix == '|' && suffix == '+' {
        Some(UnsignedRange(I7))
    } else if prefix == '+' && suffix == '-' {
        Some(UnsignedRange(K2))
    } else {
        None
    }
}

/// What the end of a prefix says: a block's letter and colon name the block's
/// first field; else the last character may decide.
pub open spec fn forward_match(prefix: Seq<char>) -> Option<AllPosition> {
    let by_block = if prefix.len() >= 2 && prefix.last() == ':' {
        block_first(prefix[prefix.len() - 2])
    } else {
        None
    };
    if by_block is Some {
        by_block
    } else if prefix.len() >= 1 {
        forward_single(prefix.last())
    } else {
        None
    }
}

/// What the start of a suffix says: a slash and a block's letter name the
/// last field before the block; else the first character may decide.
pub open spec fn backward_match(suffix: Seq<char>) -> Option<AllPosition> {
    let by_block = if suffix.len() >= 2 && suffix[0] == '/' {
        block_last(suffix[1])
    } else {
        None
    };
    if by_block is Some {
        by_block
    } else if suffix.len() >= 1 {
        backward_single(suffix[0])
    } else {
        None
    }
}

/// The position that the tables give for a prefix and a suffix: by the prefix
/// alone, else by the suffix alone, else by the last character of the one and
/// the first of the other.
pub open spec fn table_position(prefix: Seq<char>, suffix: Seq<char>) -> Option<AllPosition> {
    if forward_match(prefix) is Some {
        forward_match(prefix)
    } else if backward_match(suffix) is Some {
        backward_match(suffix)
    } else if prefix.len() >= 1 && suffix.len() >= 1 {
        combination(prefix.last(), suffix[0])
    } else {
        None
    }
}

/// The position that a pattern points at. Where the tables give none and
/// nothing follows the range section, not even an asterisk, it is the last
/// field of a label.
pub open spec fn resolve(split: Split) -> Result<AllPosition, PositionError> {
    match table_position(split.prefix, split.suffix) {
        Some(position) => Ok(position),
        None => if split.suffix.len() == 0 && !split.trailing {
            Ok(UnsignedRange(K3))
        } else {
            Err(PositionError::NoMatchingPosition)
        },
    }
}

/// The delimiter before and the delimiter behind a field, as a label writes
/// them.
pub open spec fn hint_of(position: AllPosition) -> (Seq<char>, Seq<char>) {
    match position {
        Phone(P1) => (seq![], seq!['^']),
        Phone(P2) => (seq!['^'], seq!['-']),
        Phone(P3) => (seq!['-'], seq!['+']),
        Phone(P4) => (seq!['+'], seq!['=']),
        Phone(P5) => (seq!['='], seq!['/', 'A', ':']),
        SignedRange(A1) => (seq!['/', 'A', ':'], seq!['+']),
        UnsignedRange(A2) => (seq!['+'], seq!['+']),
        UnsignedRange(A3) => (seq!['+'], seq!['/', 'B', ':']),
        Category(B1) => (seq!['/', 'B', ':'], seq!['-']),
        Category(B2) => (seq!['-'], seq!['_']),
        Category(B3) => (seq!['_'], seq!['/', 'C', ':']),
        Category(C1) => (seq!['/', 'C', ':'], seq!['_']),
        Category(C2) => (seq!['_'], seq!['+']),
        Category(C3) => (seq!['+'], seq!['/', 'D', ':']),
        Category(D1) => (seq!['/', 'D', ':'], seq!['+']),
        Category(D2) => (seq!['+'], seq!['_']),
        Category(D3) => (seq!['_'], seq!['/', 'E', ':']),
        UnsignedRange(E1) => (seq!['/', 'E', ':'], seq!['_']),
        UnsignedRange(E2) => (seq!['_'], seq!['!']),
        Boolean(E3) => (seq!['!'], seq!['_']),
        Undefined(E4) => (seq!['_'], seq!['-']),
        Boolean(E5) => (seq!['-'], seq!['/', 'F', ':']),
        UnsignedRange(F1) => (seq!['/', 'F', ':'], seq!['_']),
        UnsignedRange(F2) => (seq!['_'], seq!['#']),
        Boolean(F3) => (seq!['#'], seq!['_']),
        Undefined(F4) => (seq!['_'], seq!['@']),
        UnsignedRange(F5) => (seq!['@'], seq!['_']),
        UnsignedRange(F6) => (seq!['_'], seq!['|']),
        UnsignedRange(F7) => (seq!['|'], seq!['_']),
        UnsignedRange(F8) => (seq!['_'], seq!['/', 'G', ':']),
        UnsignedRange(G1) => (seq!['/', 'G', ':'], seq!['_']),
        UnsignedRange(G2) => (seq!['_'], seq!['%']),
        Boolean(G3) => (seq!['%'], seq!['_']),
        Undefined(G4) => (seq!['_'], seq!['_']),
        Boolean(G5) => (seq!['_'], seq!['/', 'H', ':']),
        UnsignedRange(H1) => (seq!['/', 'H', ':'], seq!['_']),
        UnsignedRange(H2) => (seq!['_'], seq!['/', 'I', ':']),
        UnsignedRange(I1) => (seq!['/', 'I', ':'], seq!['-']),
        UnsignedRange(I2) => (seq!['-'], seq!['@']),
        UnsignedRange(I3) => (seq!['@'], seq!['+']),
        UnsignedRange(I4) => (seq!['+'], seq!['&']),
        UnsignedRange(I5) => (seq!['&'], seq!['-']),
        UnsignedRange(I6) => (seq!['-'], seq!['|']),
        UnsignedRange(I7) => (seq!['|'], seq!['+']),
        UnsignedRange(I8) => (seq!['+'], seq!['/', 'J', ':']),
        UnsignedRange(J1) => (seq!['/', 'J', ':'], seq!['_']),
        UnsignedRange(J2) => (seq!['_'], seq!['/', 'K', ':']),
        UnsignedRange(K1) => (seq!['/', 'K', ':'], seq!['+']),
        UnsignedRange(K2) => (seq!['+'], seq!['-']),
        UnsignedRange(K3) => (seq!['-'], seq![]),
    }
}

/// Whether a pattern fits the position that it was found to point at. Every
/// position but the first field of a label needs an asterisk at the start of
/// the pattern, every position but the last field one at its end. Then the
/// prefix has to end with the delimiter before the field, and the suffix has
/// to start with the delimiter behind it.
pub open spec fn verdict(split: Split, position: AllPosition) -> Result<(), PositionError> {
    if position != Phone(P1) && !split.leading {
        Err(PositionError::MissingPrefixAsterisk)
    } else if position != UnsignedRange(K3) && !split.trailing {
        Err(PositionError::MissingSuffixAsterisk)
    } else if !ends_with(split.prefix, hint_of(position).0) {
        Err(PositionError::PrefixVerifyError)
    } else if !starts_with(split.suffix, hint_of(position).1) {
        Err(PositionError::SuffixVerifyError)
    } else {
        Ok(())
    }
}

/// The position that a pattern points at and its range section: the pattern
/// is cut, its range section must not be empty, its delimiters are looked up,
/// and it is held against the position found.
pub open spec fn estimate(pattern: Seq<char>) -> Result<(AllPosition, Seq<char>), PositionError> {
    let split = split_of(pattern);
    if split.range.len() == 0 {
        Err(PositionError::EmptyRange)
    } else {
        match resolve(split) {
            Err(e) => Err(e),
            Ok(position) => match verdict(split, position) {
                Err(e) => Err(e),
                Ok(_) => Ok((position, split.range)),
            },
        }
    }
}

/// Estimates the position the pattern is pointing at.
pub fn estimate_position(pattern: &str) -> (r: Result<(AllPosition, &str), PositionError>)
    ensures
        match r {
            Ok((position, range)) => estimate(pattern@) == Ok::<
                (AllPosition, Seq<char>),
                PositionError,
            >((position, range@)),
            Err(e) => estimate(pattern@) == Err::<(AllPosition, Seq<char>), PositionError>(e),
        },
{
    let split = PositionSplit::new(pattern);
    let range = match split.into_range() {
        Ok(range) => range,
        Err(e) => {
            return Err(e);
        },
    };
    let position = match split.match_position() {
        Ok(position) => position,
        Err(e) => {
            return Err(e);
        },
    };
    match split.verify(position) {
        Ok(_) => Ok((position, range)),
        Err(e) => Err(e),
    }
}

/// Looks a prefix and a suffix up in the tables.
pub fn position(prefix: &str, suffix: &str) -> (r: Option<AllPosition>)
    ensures
        r == table_position(prefix@, suffix@),
{
    if let Some(position) = prefix_match(prefix) {
        return Some(position);
    }
    if let Some(position) = suffix_match(suffix) {
        return Some(position);
    }
    let before = chars_of(prefix);
    let behind = chars_of(suffix);
    if before.len() >= 1 && behind.len() >= 1 {
        combination_match(before[before.len() - 1], behind[0])
    } else {
        None
    }
}

/// What the end of a prefix says of the position.
pub fn prefix_match(prefix: &str) -> (r: Option<AllPosition>)
    ensures
        r == forward_match(prefix@),
{
    let chars = chars_of(prefix);
    let n = chars.len();
    if n == 0 {
        return None;
    }
    let last = chars[n - 1];
    if n >= 2 && last == ':' {
        let letter = chars[n - 2];
        let by_block = if letter == 'A' {
            Some(SignedRange(A1))
        } else if letter == 'B' {
            Some(Category(B1))
        } else if letter == 'C' {
            Some(Category(C1))
        } else if letter == 'D' {
            Some(Category(D1))
        } else if letter == 'E' {
            Some(UnsignedRange(E1))
        } else if letter == 'F' {
            Some(UnsignedRange(F1))
        } else if letter == 'G' {
            Some(UnsignedRange(G1))
        } else if letter == 'H' {
            Some(UnsignedRange(H1))
        } else if letter == 'I' {
            Some(UnsignedRange(I1))
        } else if letter == 'J' {
            Some(UnsignedRange(J1))
        } else if letter == 'K' {
            Some(UnsignedRange(K1))
        } else {
            None
        };
        if by_block.is_some() {
            return by_block;
        }
    }
    if last == '^' {
        Some(Phone(P2))
    } else if last == '=' {
        Some(Phone(P5))
    } else if last == '!' {
        Some(Boolean(E3))
    } else if last == '#' {
        Some(Boolean(F3))
    } else if last == '%' {
        Some(Boolean(G3))
    } else if last == '&' {
        Some(UnsignedRange(I5))
    } else {
        None
    }
}

/// What the start of a suffix says of the position.
pub fn suffix_match(suffix: &str) -> (r: Option<AllPosition>)
    ensures
        r == backward_match(suffix@),
{
    let chars = chars_of(suffix);
    let n = chars.len();
    if n == 0 {
        return None;
    }
    let first = chars[0];
    if n >= 2 && first == '/' {
        let letter = chars[1];
        let by_block = if letter == 'A' {
            Some(Phone(P5))
        } else if letter == 'B' {
            Some(UnsignedRange(A3))
        } else if letter == 'C' {
            Some(Category(B3))
        } else if letter == 'D' {
            Some(Category(C3))
        } else if letter == 'E' {
            Some(Category(D3))
        } else if letter == 'F' {
            Some(Boolean(E5))
        } else if letter == 'G' {
            Some(UnsignedRange(F8))
        } else if letter == 'H' {
            Some(Boolean(G5))
        } else if letter == 'I' {
            Some(UnsignedRange(H2))
        } else if letter == 'J' {
            Some(UnsignedRange(I8))
        } else if letter == 'K' {
            Some(UnsignedRange(J2))
        } else {
            None
        };
        if by_block.is_some() {
            return by_block;
        }
    }
    if first == '^' {
        Some(Phone(P1))
    } else if first == '=' {
        Some(Phone(P4))
    } else if first == '!' {
        Some(UnsignedRange(E2))
    } else if first == '#' {
        Some(UnsignedRange(F2))
    } else if first == '%' {
        Some(UnsignedRange(G2))
    } else if first == '&' {
        Some(UnsignedRange(I4))
    } else {
        None
    }
}

/// The position between two delimiters of which neither decides alone.
pub fn combination_match(prefix: char, suffix: char) -> (r: Option<AllPosition>)
    ensures
        r == combination(prefix, suffix),
{
    match (prefix, suffix) {
        ('-', '+') => Some(Phone(P3)),
        ('+', '+') => Some(UnsignedRange(A2)),
        ('-', '_') => Some(Category(B2)),
        ('_', '+') => Some(Category(C2)),
        ('+', '_') => Some(Category(D2)),
        ('_', '-') => Some(Undefined(E4)),
        ('-', '/') => Some(Boolean(E5)),
        ('_', '@') => Some(Undefined(F4)),
        ('@', '_') => Some(UnsignedRange(F5)),
        ('_', '|') => Some(UnsignedRange(F6)),
        ('|', '_') => Some(UnsignedRange(F7)),
        ('_', '_') => Some(Undefined(G4)),
        ('-', '@') => Some(UnsignedRange(I2)),
        ('@', '+') => Some(UnsignedRange(I3)),
        ('-', '|') => Some(UnsignedRange(I6)),
        ('|', '+') => Some(UnsignedRange(I7)),
        ('+', '-') => Some(UnsignedRange(K2)),
        _ => None,
    }
}

/// The delimiter before and the delimiter behind a field.
pub fn reverse_hint(position: AllPosition) -> (r: (&'static str, &'static str))
    ensures
        (r.0@, r.1@) == hint_of(position),
{
    proof {
        reveal_strlit("");
        reveal_strlit("^");
        reveal_strlit("-");
        reveal_strlit("+");
        reveal_strlit("=");
        reveal_strlit("_");
        reveal_strlit("!");
        reveal_strlit("#");
        reveal_strlit("%");
        reveal_strlit("@");
        reveal_strlit("|");
        reveal_strlit("&");
        reveal_strlit("/A:");
        reveal_strlit("/B:");
        reveal_strlit("/C:");
        reveal_strlit("/D:");
        reveal_strlit("/E:");
        reveal_strlit("/F:");
        reveal_strlit("/G:");
        reveal_strlit("/H:");
        reveal_strlit("/I:");
        reveal_strlit("/J:");
        reveal_strlit("/K:");
    }
    let r = match position {
        Phone(P1) => ("", "^"),
        Phone(P2) => ("^", "-"),
        Phone(P3) => ("-", "+"),
        Phone(P4) => ("+", "="),
        Phone(P5) => ("=", "/A:"),
        SignedRange(A1) => ("/A:", "+"),
        UnsignedRange(A2) => ("+", "+"),
        UnsignedRange(A3) => ("+", "/B:"),
        Category(B1) => ("/B:", "-"),
        Category(B2) => ("-", "_"),
        Category(B3) => ("_", "/C:"),
        Category(C1) => ("/C:", "_"),
        Category(C2) => ("_", "+"),
        Category(C3) => ("+", "/D:"),
        Category(D1) => ("/D:", "+"),
        Category(D2) => ("+", "_"),
        Category(D3) => ("_", "/E:"),
        UnsignedRange(E1) => ("/E:", "_"),
        UnsignedRange(E2) => ("_", "!"),
        Boolean(E3) => ("!", "_"),
        Undefined(E4) => ("_", "-"),
        Boolean(E5) => ("-", "/F:"),
        UnsignedRange(F1) => ("/F:", "_"),
        UnsignedRange(F2) => ("_", "#"),
        Boolean(F3) => ("#", "_"),
        Undefined(F4) => ("_", "@"),
        UnsignedRange(F5) => ("@", "_"),
        UnsignedRange(F6) => ("_", "|"),
        UnsignedRange(F7) => ("|", "_"),
        UnsignedRange(F8) => ("_", "/G:"),
        UnsignedRange(G1) => ("/G:", "_"),
        UnsignedRange(G2) => ("_", "%"),
        Boolean(G3) => ("%", "_"),
        Undefined(G4) => ("_", "_"),
        Boolean(G5) => ("_", "/H:"),
        UnsignedRange(H1) => ("/H:", "_"),
        UnsignedRange(H2) => ("_", "/I:"),
        UnsignedRange(I1) => ("/I:", "-"),
        UnsignedRange(I2) => ("-", "@"),
        UnsignedRange(I3) => ("@", "+"),
        UnsignedRange(I4) => ("+", "&"),
        UnsignedRange(I5) => ("&", "-"),
        UnsignedRange(I6) => ("-", "|"),
        UnsignedRange(I7) => ("|", "+"),
        UnsignedRange(I8) => ("+", "/J:"),
        UnsignedRange(J1) => ("/J:", "_"),
        UnsignedRange(J2) => ("_", "/K:"),
        UnsignedRange(K1) => ("/K:", "+"),
        UnsignedRange(K2) => ("+", "-"),
        UnsignedRange(K3) => ("-", ""),
    };
    assert(r.0@ =~= hint_of(position).0);
    assert(r.1@ =~= hint_of(position).1);
    r
}

} // verus!
