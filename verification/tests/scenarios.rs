use jlabel::parse_position::{estimate_position, reverse_hint};
use jlabel::position::AllPosition::{Boolean, Category, Phone, SignedRange, Undefined, UnsignedRange};
use jlabel::position::{
    AllPosition, BooleanPosition, CategoryPosition, PhonePosition, SignedRangePosition,
    UndefinedPotision, UnsignedRangePosition,
};
use jlabel::{
    AccentPhrasePrevNext, AllQuestion, BreathGroupPrevNext, Label, Mora, ParseError, Phoneme,
    PositionError, Question, QuestionMatcher, Utterance, Word,
};

fn all_positions() -> Vec<AllPosition> {
    let mut all = vec![
        Phone(PhonePosition::P1),
        Phone(PhonePosition::P2),
        Phone(PhonePosition::P3),
        Phone(PhonePosition::P4),
        Phone(PhonePosition::P5),
        SignedRange(SignedRangePosition::A1),
    ];
    for p in [
        UnsignedRangePosition::A2,
        UnsignedRangePosition::A3,
        UnsignedRangePosition::E1,
        UnsignedRangePosition::E2,
        UnsignedRangePosition::F1,
        UnsignedRangePosition::F2,
        UnsignedRangePosition::F5,
        UnsignedRangePosition::F6,
        UnsignedRangePosition::F7,
        UnsignedRangePosition::F8,
        UnsignedRangePosition::G1,
        UnsignedRangePosition::G2,
        UnsignedRangePosition::H1,
        UnsignedRangePosition::H2,
        UnsignedRangePosition::I1,
        UnsignedRangePosition::I2,
        UnsignedRangePosition::I3,
        UnsignedRangePosition::I4,
        UnsignedRangePosition::I5,
        UnsignedRangePosition::I6,
        UnsignedRangePosition::I7,
        UnsignedRangePosition::I8,
        UnsignedRangePosition::J1,
        UnsignedRangePosition::J2,
        UnsignedRangePosition::K1,
        UnsignedRangePosition::K2,
        UnsignedRangePosition::K3,
    ] {
        all.push(UnsignedRange(p));
    }
    for p in [
        BooleanPosition::E3,
        BooleanPosition::E5,
        BooleanPosition::F3,
        BooleanPosition::G3,
        BooleanPosition::G5,
    ] {
        all.push(Boolean(p));
    }
    for p in [
        CategoryPosition::B1,
        CategoryPosition::B2,
        CategoryPosition::B3,
        CategoryPosition::C1,
        CategoryPosition::C2,
        CategoryPosition::C3,
        CategoryPosition::D1,
        CategoryPosition::D2,
        CategoryPosition::D3,
    ] {
        all.push(Category(p));
    }
    for p in [
        UndefinedPotision::E4,
        UndefinedPotision::F4,
        UndefinedPotision::G4,
    ] {
        all.push(Undefined(p));
    }
    all
}

fn label(a1: i8, h2: Option<u8>, b1: Option<u8>, g3: Option<bool>, p1: &str) -> Label {
    Label {
        phoneme: Phoneme {
            p2: Some(p1.to_string()),
            p1: None,
            c: None,
            n1: None,
            n2: None,
        },
        mora: Some(Mora {
            relative_accent_position: a1,
            position_forward: 1,
            position_backward: 1,
        }),
        word_prev: b1.map(|pos| Word {
            pos: Some(pos),
            ctype: None,
            cform: None,
        }),
        word_curr: None,
        word_next: None,
        accent_phrase_prev: None,
        accent_phrase_curr: None,
        accent_phrase_next: g3.map(|flag| AccentPhrasePrevNext {
            mora_count: 1,
            accent_position: 1,
            is_interrogative: flag,
            is_pause_insertion: Some(flag),
        }),
        breath_group_prev: h2.map(|count| BreathGroupPrevNext {
            accent_phrase_count: 1,
            mora_count: count,
        }),
        breath_group_curr: None,
        breath_group_next: None,
        utterance: Utterance {
            breath_group_count: 1,
            accent_phrase_count: 1,
            mora_count: 1,
        },
    }
}

#[test]
fn every_position_is_found_by_its_delimiters() {
    let all = all_positions();
    assert_eq!(all.len(), 50);
    for position in all {
        let (prefix, suffix) = reverse_hint(position);
        let head = if position == Phone(PhonePosition::P1) {
            ""
        } else {
            "*"
        };
        let tail = if position == UnsignedRange(UnsignedRangePosition::K3) {
            ""
        } else {
            "*"
        };
        let pattern = format!("{head}{prefix}1{suffix}{tail}");
        assert_eq!(estimate_position(&pattern), Ok((position, "1")));
    }
}

#[test]
fn asterisks_are_required() {
    for position in all_positions() {
        let (prefix, suffix) = reverse_hint(position);
        if position != Phone(PhonePosition::P1) {
            let last = position == UnsignedRange(UnsignedRangePosition::K3);
            for tail in if last { vec![""] } else { vec!["", "*"] } {
                let pattern = format!("{prefix}1{suffix}{tail}");
                assert_eq!(
                    estimate_position(&pattern),
                    Err(PositionError::MissingPrefixAsterisk)
                );
            }
        }
        if position != UnsignedRange(UnsignedRangePosition::K3) {
            let head = if position == Phone(PhonePosition::P1) {
                ""
            } else {
                "*"
            };
            let pattern = format!("{head}{prefix}1{suffix}");
            assert_eq!(
                estimate_position(&pattern),
                Err(PositionError::MissingSuffixAsterisk)
            );
            assert_eq!(
                AllQuestion::parse(&[pattern.as_str()]),
                Err(ParseError::InvalidPosition(
                    PositionError::MissingSuffixAsterisk
                ))
            );
        }
    }
}

#[test]
fn ranges_without_gap_merge() {
    let q = AllQuestion::parse(&["*_2?/I:*", "*_?/I:*", "*_1?/I:*"]).unwrap();
    assert_eq!(
        q,
        AllQuestion::UnsignedRange(Question {
            position: UnsignedRangePosition::H2,
            range: Some(0..30)
        })
    );
    assert_eq!(
        AllQuestion::parse(&["*_?/I:*", "*_5?/I:*"]),
        Err(ParseError::IncontinuousRange)
    );
    assert_eq!(
        AllQuestion::parse(&["*_1/I:*", "*_3/I:*"]),
        Err(ParseError::IncontinuousRange)
    );
    assert_eq!(
        AllQuestion::parse(&["*/A:-?+*", "*/A:1?+*"]),
        Err(ParseError::IncontinuousRange)
    );
}

#[test]
fn literal_is_a_single_value() {
    let q = AllQuestion::parse(&["*_42/I:*"]).unwrap();
    assert_eq!(
        q,
        AllQuestion::UnsignedRange(Question {
            position: UnsignedRangePosition::H2,
            range: Some(42..43)
        })
    );
    for value in 0..=255u8 {
        assert_eq!(
            q.test(&label(0, Some(value), None, None, "a")),
            value == 42
        );
    }
    assert!(!q.test(&label(0, None, None, None, "a")));
    let top = AllQuestion::parse(&["*_255/I:*"]).unwrap();
    assert!(top.test(&label(0, Some(255), None, None, "a")));
    assert!(!top.test(&label(0, Some(254), None, None, "a")));
}

#[test]
fn parsing_twice_gives_the_same() {
    for patterns in [
        vec!["a^*", "A^*"],
        vec!["*/A:-??+*", "*/A:-?+*"],
        vec!["*_xx_*"],
        vec!["*/B:17-*", "*/B:20-*"],
        vec!["*%1_*"],
        vec!["*/A:*"],
        vec!["*/A:1+*", "*/A:1x+*"],
        vec!["*!2_*"],
        vec![],
    ] {
        assert_eq!(AllQuestion::parse(&patterns), AllQuestion::parse(&patterns));
    }
}

#[test]
fn boolean_polarity() {
    let parse = |pattern: &str| match AllQuestion::parse(&[pattern]) {
        Ok(AllQuestion::Boolean(q)) => (q.position, q.range),
        other => panic!("no boolean question: {:?}", other),
    };
    assert_eq!(parse("*!0_*"), (BooleanPosition::E3, Some(false)));
    assert_eq!(parse("*!1_*"), (BooleanPosition::E3, Some(true)));
    assert_eq!(parse("*#0_*"), (BooleanPosition::F3, Some(false)));
    assert_eq!(parse("*#1_*"), (BooleanPosition::F3, Some(true)));
    assert_eq!(parse("*%0_*"), (BooleanPosition::G3, Some(false)));
    assert_eq!(parse("*%1_*"), (BooleanPosition::G3, Some(true)));
    assert_eq!(parse("*-0/F:*"), (BooleanPosition::E5, Some(true)));
    assert_eq!(parse("*-1/F:*"), (BooleanPosition::E5, Some(false)));
    assert_eq!(parse("*_0/H:*"), (BooleanPosition::G5, Some(true)));
    assert_eq!(parse("*_1/H:*"), (BooleanPosition::G5, Some(false)));
    assert_eq!(parse("*_xx/H:*"), (BooleanPosition::G5, None));
    assert_eq!(
        AllQuestion::parse(&["*!2_*"]),
        Err(ParseError::InvalidBoolean("2".to_string()))
    );
    assert_eq!(
        AllQuestion::parse(&["*!01_*"]),
        Err(ParseError::InvalidBoolean("01".to_string()))
    );
}

#[test]
fn undefined_matches_every_label() {
    for pattern in ["*_xx-*", "*_xx@*", "*_xx_*"] {
        let q = AllQuestion::parse(&[pattern]).unwrap();
        assert!(matches!(q, AllQuestion::Undefined(_)));
        assert!(q.test(&label(0, None, None, None, "a")));
        assert!(q.test(&label(-5, Some(3), Some(1), Some(true), "xx")));
    }
    let odd = AllQuestion::Undefined(Question {
        position: UndefinedPotision::F4,
        range: Some(()),
    });
    assert!(odd.test(&label(0, None, None, None, "a")));
    for range in [None, Some(())] {
        let inner = Question {
            position: UndefinedPotision::E4,
            range,
        };
        assert!(inner.test(&label(0, None, None, None, "a")));
        assert!(inner.test(&label(-5, Some(3), Some(1), Some(true), "xx")));
    }
    // A field that is never defined can hold nothing else.
    assert_eq!(AllQuestion::parse(&["*_1_*"]), Err(ParseError::Empty));
    assert_eq!(
        AllQuestion::parse(&["*_xx_*", "*_xx_*"]),
        Err(ParseError::Empty)
    );
}

#[test]
fn scenario_phone_set() {
    let q = AllQuestion::parse(&["a^*", "A^*"]).unwrap();
    assert_eq!(
        q,
        AllQuestion::Phone(Question {
            position: PhonePosition::P1,
            range: Some(vec!["a".to_string(), "A".to_string()])
        })
    );
    assert!(q.test(&label(0, None, None, None, "a")));
    assert!(q.test(&label(0, None, None, None, "A")));
    assert!(!q.test(&label(0, None, None, None, "b")));
}

#[test]
fn scenario_signed_range() {
    let q = AllQuestion::parse(&[
        "*/A:-??+*",
        "*/A:-?+*",
        "*/A:?+*",
        "*/A:10+*",
        "*/A:11+*",
    ])
    .unwrap();
    assert_eq!(
        q,
        AllQuestion::SignedRange(Question {
            position: SignedRangePosition::A1,
            range: Some(-99..12)
        })
    );
    for value in [-50, -1, 0, 10, 11] {
        assert!(q.test(&label(value, None, None, None, "a")));
    }
    for value in [12, -100] {
        assert!(!q.test(&label(value, None, None, None, "a")));
    }
}

#[test]
fn scenario_boolean() {
    let q = AllQuestion::parse(&["*%1_*"]).unwrap();
    assert_eq!(
        q,
        AllQuestion::Boolean(Question {
            position: BooleanPosition::G3,
            range: Some(true)
        })
    );
    assert!(q.test(&label(0, None, None, Some(true), "a")));
    assert!(!q.test(&label(0, None, None, Some(false), "a")));
    assert!(!q.test(&label(0, None, None, None, "a")));
}

#[test]
fn scenario_position_mismatch() {
    assert_eq!(
        AllQuestion::parse(&["*/A:-??+*", "*/B:0+*"]),
        Err(ParseError::PositionMismatch)
    );
    assert_eq!(
        AllQuestion::parse(&["*/A:-??+*", "*/B:0-*"]),
        Err(ParseError::PositionMismatch)
    );
}

#[test]
fn scenario_undefined() {
    let q = AllQuestion::parse(&["*_xx_*"]).unwrap();
    assert_eq!(
        q,
        AllQuestion::Undefined(Question {
            position: UndefinedPotision::G4,
            range: None
        })
    );
    assert!(q.test(&label(0, None, None, None, "a")));
    assert!(q.test(&label(7, Some(1), Some(2), Some(false), "b")));
}

#[test]
fn scenario_category_set() {
    let q = AllQuestion::parse(&["*/B:17-*", "*/B:20-*"]).unwrap();
    assert_eq!(
        q,
        AllQuestion::Category(Question {
            position: CategoryPosition::B1,
            range: Some(vec![17, 20])
        })
    );
    for value in 0..=255u8 {
        assert_eq!(
            q.test(&label(0, None, Some(value), None, "a")),
            value == 17 || value == 20
        );
    }
    assert!(!q.test(&label(0, None, None, None, "a")));
}

#[test]
fn undefined_sentinel() {
    // Only `xx` alone asks for a field to be undefined.
    let q = AllQuestion::parse(&["*_xx/I:*"]).unwrap();
    assert_eq!(
        q,
        AllQuestion::UnsignedRange(Question {
            position: UnsignedRangePosition::H2,
            range: None
        })
    );
    assert!(q.test(&label(0, None, None, None, "a")));
    assert!(!q.test(&label(0, Some(0), None, None, "a")));
    assert!(matches!(
        AllQuestion::parse(&["*_xx/I:*", "*_1/I:*"]),
        Err(ParseError::FailLiteral(_))
    ));
    let phone = AllQuestion::parse(&["xx^*"]).unwrap();
    assert_eq!(
        phone,
        AllQuestion::Phone(Question {
            position: PhonePosition::P1,
            range: None
        })
    );
    assert_eq!(
        Question::new_xx(CategoryPosition::C2),
        Question {
            position: CategoryPosition::C2,
            range: None
        }
    );
}

#[test]
fn errors_of_ranges() {
    assert!(matches!(
        AllQuestion::parse(&["*_1?2/I:*"]),
        Err(ParseError::FailLiteral(_))
    ));
    assert!(matches!(
        AllQuestion::parse(&["*_??/I:*"]),
        Err(ParseError::FailWildcard(_))
    ));
    assert!(matches!(
        AllQuestion::parse(&["*/B:1?-*"]),
        Err(ParseError::FailLiteral(_))
    ));
    assert!(matches!(
        AllQuestion::parse(&["*+-1+*"]),
        Err(ParseError::FailLiteral(_))
    ));
    assert_eq!(AllQuestion::parse(&[]), Err(ParseError::Empty));
    let copy = AllQuestion::parse(&["a^*", "A^*"]).unwrap().clone();
    assert_eq!(copy, AllQuestion::parse(&["a^*", "A^*"]).unwrap());
}
