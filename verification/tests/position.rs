use jlabel::parse_position::{estimate_position, PositionSplit};
use jlabel::position::AllPosition::{Boolean, Category, Phone, SignedRange, Undefined, UnsignedRange};
use jlabel::position::BooleanPosition::{E5, F3, G5};
use jlabel::position::CategoryPosition::{B1, B3};
use jlabel::position::PhonePosition::{P1, P2};
use jlabel::position::SignedRangePosition::A1;
use jlabel::position::UndefinedPotision::{E4, F4, G4};
use jlabel::position::UnsignedRangePosition::{H2, I7, K1, K3};
use jlabel::position::{range_i8, range_u8};
use jlabel::span::merge_ranges;
use jlabel::{ParseError, PositionError};
use std::num::IntErrorKind;

#[test]
fn basic() {
    assert_eq!(estimate_position("a^*"), Ok((Phone(P1), "a")));
    assert_eq!(estimate_position("*/A:-1+*"), Ok((SignedRange(A1), "-1")));
    assert_eq!(estimate_position("*/A:-??+*"), Ok((SignedRange(A1), "-??")));
    assert_eq!(estimate_position("*|?+*"), Ok((UnsignedRange(I7), "?")));
    assert_eq!(estimate_position("*-1"), Ok((UnsignedRange(K3), "1")));
    assert_eq!(estimate_position("*_42/I:*"), Ok((UnsignedRange(H2), "42")));
    assert_eq!(estimate_position("*/B:17-*"), Ok((Category(B1), "17")));
    assert_eq!(estimate_position("*_xx-*"), Ok((Undefined(E4), "xx")));
    assert_eq!(estimate_position("*_xx@*"), Ok((Undefined(F4), "xx")));
    assert_eq!(estimate_position("*_xx_*"), Ok((Undefined(G4), "xx")));
}

#[test]
fn basic_fail() {
    assert_eq!(estimate_position("*"), Err(PositionError::EmptyRange));
    // The range section is looked at first: a pattern without one names nothing.
    assert_eq!(estimate_position(":*"), Err(PositionError::EmptyRange));
    assert_eq!(estimate_position("*/A:*"), Err(PositionError::EmptyRange));
    assert_eq!(
        estimate_position("*/A:0/B:*"),
        Err(PositionError::SuffixVerifyError)
    );
    assert_eq!(
        estimate_position("*/B:0+*"),
        Err(PositionError::SuffixVerifyError)
    );

    assert_eq!(
        estimate_position("*/B :0+*"),
        Err(PositionError::NoMatchingPosition)
    );
    assert_eq!(
        estimate_position("*_0/Z:*"),
        Err(PositionError::NoMatchingPosition)
    );

    assert_eq!(
        estimate_position("a^"),
        Err(PositionError::MissingSuffixAsterisk)
    );
    assert_eq!(
        estimate_position("/B:17-*"),
        Err(PositionError::MissingPrefixAsterisk)
    );
    assert_eq!(
        // K3
        estimate_position("-1"),
        Err(PositionError::MissingPrefixAsterisk)
    );
}

#[test]
fn advanced() {
    // A field inside a label needs both of its delimiters in full.
    assert_eq!(
        estimate_position("*#1*"),
        Err(PositionError::SuffixVerifyError)
    );
    assert_eq!(
        estimate_position("*%1*"),
        Err(PositionError::SuffixVerifyError)
    );
    assert_eq!(
        estimate_position("*_01/C*"),
        Err(PositionError::SuffixVerifyError)
    );
    assert_eq!(
        estimate_position("*-1/*"),
        Err(PositionError::SuffixVerifyError)
    );

    assert_eq!(
        estimate_position("*-1/H:*"),
        Err(PositionError::PrefixVerifyError)
    );
}

#[test]
fn advanced_full_delimiters() {
    assert_eq!(estimate_position("*#1_*"), Ok((Boolean(F3), "1")));
    assert_eq!(estimate_position("*_01/C:*"), Ok((Category(B3), "01")));
    assert_eq!(estimate_position("*-1/F:*"), Ok((Boolean(E5), "1")));
    assert_eq!(estimate_position("*_1/H:*"), Ok((Boolean(G5), "1")));
    // More text before the delimiter of the prefix does no harm.
    assert_eq!(estimate_position("*xyz/K:3+*"), Ok((UnsignedRange(K1), "3")));
}

#[test]
fn resolution_order() {
    // A delimiter that decides alone wins over the rule of the last field,
    // so the missing asterisk is what is wrong here.
    assert_eq!(
        estimate_position("*^a"),
        Err(PositionError::MissingSuffixAsterisk)
    );
    assert_eq!(
        estimate_position("*/K:5"),
        Err(PositionError::MissingSuffixAsterisk)
    );
    // Without any delimiter nothing but the last field is left.
    assert_eq!(
        estimate_position("abc"),
        Err(PositionError::MissingPrefixAsterisk)
    );
    assert_eq!(
        estimate_position("*abc"),
        Err(PositionError::PrefixVerifyError)
    );
    assert_eq!(estimate_position("*^o-*"), Ok((Phone(P2), "o")));
}

#[test]
fn tests_splitter() {
    let parts = |pattern: &'static str| {
        let split = PositionSplit::new(pattern);
        (split.prefix, split.range, split.suffix, split.asterisks)
    };
    assert_eq!(parts("a^*"), ("", "a", "^", (false, true)));
    assert_eq!(parts("*/A:-??+*"), ("/A:", "-??", "+", (true, true)));
    assert_eq!(parts("*|?+*"), ("|", "?", "+", (true, true)));
    assert_eq!(parts("*-1"), ("-", "1", "", (true, false)));

    assert!(PositionSplit::new("*").into_range().is_err());
    assert!(PositionSplit::new(":*").into_range().is_err());
    assert!(PositionSplit::new("*/A:*").into_range().is_err());

    assert_eq!(parts("*"), ("", "", "", (true, false)));
    assert_eq!(parts("**"), ("", "", "", (true, true)));
    assert_eq!(parts("*/A:*"), ("", "", "/A:", (true, true)));
    assert_eq!(parts("a^"), ("", "a", "^", (false, false)));
    assert_eq!(parts("*é^ü-*"), ("é^", "ü", "-", (true, true)));
}

#[test]
fn position_parse_i8_range() {
    assert_eq!(range_i8("12"), Ok(12..13));
    assert_eq!(range_i8("1?"), Ok(10..20));
    assert_eq!(range_i8("?"), Ok(0..10));

    assert_eq!(range_i8("-12"), Ok(-12..-11));
    // A minus and one digit: -9 to 0.
    assert_eq!(range_i8("-?"), Ok(-9..1));
    assert_eq!(range_i8("-??"), Ok(-99..-9));
}

#[test]
fn position_parse_u8_range() {
    assert_eq!(range_u8("12"), Ok(12..13));
    assert_eq!(range_u8("1?"), Ok(10..20));
    assert_eq!(range_u8("12?"), Ok(120..130));
    assert_eq!(range_u8("?"), Ok(0..10));
}

#[test]
fn range_limits() {
    assert_eq!(range_u8("255"), Ok(255..256));
    assert_eq!(range_u8("25?"), Ok(250..260));
    assert_eq!(range_u8("255?"), Ok(2550..2560));
    assert_eq!(range_u8("+7"), Ok(7..8));
    assert_eq!(range_u8("007"), Ok(7..8));
    assert!(matches!(range_u8("256"), Err(ParseError::FailLiteral(_))));
    assert!(matches!(range_u8("-1"), Err(ParseError::FailLiteral(_))));
    assert!(matches!(range_u8(""), Err(ParseError::FailLiteral(_))));
    assert!(matches!(range_u8("256?"), Err(ParseError::FailWildcard(_))));
    assert_eq!(range_i8("127"), Ok(127..128));
    assert_eq!(range_i8("-128"), Ok(-128..-127));
    assert_eq!(range_i8("12?"), Ok(120..130));
    // A decade below zero: -19 to -10.
    assert_eq!(range_i8("-1?"), Ok(-19..-9));
    assert_eq!(range_i8("-0?"), Ok(-9..1));
    assert_eq!(range_i8("-12?"), Ok(-129..-119));
    assert_eq!(range_i8("+1?"), Ok(10..20));
    assert!(matches!(range_i8("128"), Err(ParseError::FailLiteral(_))));
    assert!(matches!(range_i8("-"), Err(ParseError::FailLiteral(_))));
    assert!(matches!(range_i8("+?"), Err(ParseError::FailWildcard(_))));
}

#[test]
fn position_range_fail() {
    assert!(matches!(
        range_u8("?2"),
        Err(ParseError::FailLiteral(e)) if *e.kind() == IntErrorKind::InvalidDigit
    ));
    assert!(matches!(
        range_i8("?2"),
        Err(ParseError::FailLiteral(e)) if *e.kind() == IntErrorKind::InvalidDigit
    ));

    assert!(matches!(
        range_u8("???"),
        Err(ParseError::FailWildcard(e)) if *e.kind() == IntErrorKind::InvalidDigit
    ));
    assert!(matches!(
        range_i8("???"),
        Err(ParseError::FailWildcard(e)) if *e.kind() == IntErrorKind::InvalidDigit
    ));
}

#[test]
fn kinds_of_failed_numbers() {
    let kind_u8 = |text: &str| match range_u8(text) {
        Err(ParseError::FailLiteral(e)) | Err(ParseError::FailWildcard(e)) => e.kind().clone(),
        other => panic!("no failed number: {:?}", other),
    };
    let kind_i8 = |text: &str| match range_i8(text) {
        Err(ParseError::FailLiteral(e)) | Err(ParseError::FailWildcard(e)) => e.kind().clone(),
        other => panic!("no failed number: {:?}", other),
    };
    assert_eq!(kind_u8(""), IntErrorKind::Empty);
    assert_eq!(kind_u8("??"), IntErrorKind::InvalidDigit);
    assert_eq!(kind_u8("+"), IntErrorKind::InvalidDigit);
    assert_eq!(kind_u8("+?"), IntErrorKind::InvalidDigit);
    assert_eq!(kind_u8("-1"), IntErrorKind::InvalidDigit);
    assert_eq!(kind_u8("x1"), IntErrorKind::InvalidDigit);
    assert_eq!(kind_u8("256"), IntErrorKind::PosOverflow);
    assert_eq!(kind_u8("000300"), IntErrorKind::PosOverflow);
    assert_eq!(kind_u8("256?"), IntErrorKind::PosOverflow);
    assert_eq!(kind_i8(""), IntErrorKind::Empty);
    assert_eq!(kind_i8("-"), IntErrorKind::InvalidDigit);
    assert_eq!(kind_i8("--1"), IntErrorKind::InvalidDigit);
    assert_eq!(kind_i8("-x"), IntErrorKind::InvalidDigit);
    assert_eq!(kind_i8("128"), IntErrorKind::PosOverflow);
    assert_eq!(kind_i8("-129"), IntErrorKind::NegOverflow);
    assert_eq!(kind_i8("-0000129"), IntErrorKind::NegOverflow);
    assert_eq!(kind_i8("-200?"), IntErrorKind::NegOverflow);
}

#[test]
fn merge_ranges_1() {
    assert_eq!(merge_ranges(vec![0i16..1]), Ok(0..1));
    assert_eq!(merge_ranges(vec![0i16..1, 1..3]), Ok(0..3));
    assert_eq!(merge_ranges(vec![1i16..3, 0..1]), Ok(0..3));
    assert_eq!(merge_ranges(vec![0i16..2, 1..3]), Ok(0..3));
    assert_eq!(merge_ranges(vec![-6i16..7, 1..3]), Ok(-6..7));
    assert_eq!(
        merge_ranges(vec![-6i16..7, 1..3, 2..6, -8..-7, -8..0]),
        Ok(-8..7)
    );

    assert_eq!(merge_ranges::<u16>(vec![]), Err(ParseError::Empty));
    assert_eq!(
        merge_ranges(vec![0i16..1, 5..6]),
        Err(ParseError::IncontinuousRange)
    );
    assert_eq!(
        merge_ranges(vec![3i16..6, -1..2]),
        Err(ParseError::IncontinuousRange)
    );
    assert_eq!(
        merge_ranges(vec![-6i16..7, 1..3, 2..6, -8..-7]),
        Err(ParseError::IncontinuousRange)
    );
}

#[test]
fn merge_ranges_gap_of_decades() {
    assert_eq!(
        merge_ranges(vec![0u16..10, 50..60]),
        Err(ParseError::IncontinuousRange)
    );
    assert_eq!(merge_ranges(vec![50u16..60, 0..10, 10..50]), Ok(0..60));
}
