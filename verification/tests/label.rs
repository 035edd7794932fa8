use jlabel::parser::ParseError;
use jlabel::{
    AccentPhraseCurrent, AccentPhrasePrevNext, BreathGroupCurrent, BreathGroupPrevNext, Label,
    Mora, Phoneme, Utterance, Word,
};
use std::str::FromStr;

fn phone(s: &str) -> Option<String> {
    Some(s.to_string())
}

fn fixtures() -> Vec<(&'static str, Label)> {
    vec![
        (
            "sil^n-i+h=o/A:-3+1+7/B:xx-xx_xx/C:02_xx+xx/D:02+xx_xx/E:xx_xx!xx_xx-xx/F:7_4#0_xx@1_3|1_12/G:4_4%0_xx_1/H:xx_xx/I:3-12@1+2&1-8|1+41/J:5_29/K:2+8-41",
            Label {
                phoneme: Phoneme {
                    p2: phone("sil"),
                    p1: phone("n"),
                    c: phone("i"),
                    n1: phone("h"),
                    n2: phone("o"),
                },
                mora: Some(Mora {
                    relative_accent_position: -3,
                    position_forward: 1,
                    position_backward: 7,
                }),
                word_prev: None,
                word_curr: Some(Word {
                    pos: Some(2),
                    ctype: None,
                    cform: None,
                }),
                word_next: Some(Word {
                    pos: Some(2),
                    ctype: None,
                    cform: None,
                }),
                accent_phrase_prev: None,
                accent_phrase_curr: Some(AccentPhraseCurrent {
                    mora_count: 7,
                    accent_position: 4,
                    is_interrogative: false,
                    accent_phrase_position_forward: 1,
                    accent_phrase_position_backward: 3,
                    mora_position_forward: 1,
                    mora_position_backward: 12,
                }),
                accent_phrase_next: Some(AccentPhrasePrevNext {
                    mora_count: 4,
                    accent_position: 4,
                    is_interrogative: false,
                    is_pause_insertion: Some(false),
                }),
                breath_group_prev: None,
                breath_group_curr: Some(BreathGroupCurrent {
                    accent_phrase_count: 3,
                    mora_count: 12,
                    breath_group_position_forward: 1,
                    breath_group_position_backward: 2,
                    accent_phrase_position_forward: 1,
                    accent_phrase_position_backward: 8,
                    mora_position_forward: 1,
                    mora_position_backward: 41,
                }),
                breath_group_next: Some(BreathGroupPrevNext {
                    accent_phrase_count: 5,
                    mora_count: 29,
                }),
                utterance: Utterance {
                    breath_group_count: 2,
                    accent_phrase_count: 8,
                    mora_count: 41,
                },
            },
        ),
        (
            "sil^k-o+N=n/A:-4+1+5/B:xx-xx_xx/C:09_xx+xx/D:xx+xx_xx/E:xx_xx!xx_xx-xx/F:5_5#0_xx@1_1|1_5/G:xx_xx%xx_xx_xx/H:xx_xx/I:1-5@1+1&1-1|1+5/J:xx_xx/K:1+1-5",
            Label {
                phoneme: Phoneme {
                    p2: phone("sil"),
                    p1: phone("k"),
                    c: phone("o"),
                    n1: phone("N"),
                    n2: phone("n"),
                },
                mora: Some(Mora {
                    relative_accent_position: -4,
                    position_forward: 1,
                    position_backward: 5,
                }),
                word_prev: None,
                word_curr: Some(Word {
                    pos: Some(9),
                    ctype: None,
                    cform: None,
                }),
                word_next: None,
                accent_phrase_prev: None,
                accent_phrase_curr: Some(AccentPhraseCurrent {
                    mora_count: 5,
                    accent_position: 5,
                    is_interrogative: false,
                    accent_phrase_position_forward: 1,
                    accent_phrase_position_backward: 1,
                    mora_position_forward: 1,
                    mora_position_backward: 5,
                }),
                accent_phrase_next: None,
                breath_group_prev: None,
                breath_group_curr: Some(BreathGroupCurrent {
                    accent_phrase_count: 1,
                    mora_count: 5,
                    breath_group_position_forward: 1,
                    breath_group_position_backward: 1,
                    accent_phrase_position_forward: 1,
                    accent_phrase_position_backward: 1,
                    mora_position_forward: 1,
                    mora_position_backward: 5,
                }),
                breath_group_next: None,
                utterance: Utterance {
                    breath_group_count: 1,
                    accent_phrase_count: 1,
                    mora_count: 5,
                },
            },
        ),
        (
            "xx^xx-sil+k=o/A:xx+xx+xx/B:xx-xx_xx/C:xx_xx+xx/D:09+7_12/E:120_3!1_xx-0/F:xx_xx#xx_xx@xx_xx|xx_xx/G:5_5%0_xx_xx/H:2_255/I:xx-xx@xx+xx&xx-xx|xx+xx/J:1_5/K:100+10-0",
            Label {
                phoneme: Phoneme {
                    p2: None,
                    p1: None,
                    c: phone("sil"),
                    n1: phone("k"),
                    n2: phone("o"),
                },
                mora: None,
                word_prev: None,
                word_curr: None,
                word_next: Some(Word {
                    pos: Some(9),
                    ctype: Some(7),
                    cform: Some(12),
                }),
                accent_phrase_prev: Some(AccentPhrasePrevNext {
                    mora_count: 120,
                    accent_position: 3,
                    is_interrogative: true,
                    is_pause_insertion: Some(true),
                }),
                accent_phrase_curr: None,
                accent_phrase_next: Some(AccentPhrasePrevNext {
                    mora_count: 5,
                    accent_position: 5,
                    is_interrogative: false,
                    is_pause_insertion: None,
                }),
                breath_group_prev: Some(BreathGroupPrevNext {
                    accent_phrase_count: 2,
                    mora_count: 255,
                }),
                breath_group_curr: None,
                breath_group_next: Some(BreathGroupPrevNext {
                    accent_phrase_count: 1,
                    mora_count: 5,
                }),
                utterance: Utterance {
                    breath_group_count: 100,
                    accent_phrase_count: 10,
                    mora_count: 0,
                },
            },
        ),
    ]
}

#[test]
fn test_test_parse() {
    for (input, expected) in fixtures() {
        let actual = input.parse::<Label>().unwrap();
        assert_eq!(actual, expected);
    }
}

#[test]
fn test_test_serialize() {
    for (expected, label) in fixtures() {
        let actual = label.to_string();
        assert_eq!(actual, expected);
    }
}

#[test]
fn parser_test_parse() {
    for (input, expected) in fixtures() {
        let actual: Label = input.parse().unwrap();
        assert_eq!(actual, expected);
    }
}

#[test]
fn serializer_test_serialize() {
    for (expected, label) in fixtures() {
        let actual = label.to_string();
        assert_eq!(actual, expected);
    }
}

#[test]
fn parse_faults() {
    let good = fixtures()[0].0;
    assert_eq!(
        Label::from_str("sil^n-i+h=o"),
        Err(ParseError::SymbolNotFound("/A:"))
    );
    assert_eq!(Label::from_str(""), Err(ParseError::SymbolNotFound("^")));
    assert!(matches!(
        Label::from_str(&good.replace("/A:-3+", "/A:-3x+")),
        Err(ParseError::ParseIntError(_))
    ));
    assert!(matches!(
        Label::from_str(&good.replace("/A:-3+", "/A:-129+")),
        Err(ParseError::ParseIntError(_))
    ));
    assert_eq!(
        Label::from_str(&good.replace("#0_", "#2_")),
        Err(ParseError::ParseBoolError)
    );
    assert_eq!(
        Label::from_str(&good.replace("_xx@", "_1@")),
        Err(ParseError::NotUndefined)
    );
    assert!(matches!(
        Label::from_str(&good.replace("/K:2+", "/K:xx+")),
        Err(ParseError::ParseIntError(_))
    ));
    assert!(matches!(
        Label::from_str(&format!("{} ", good)),
        Err(ParseError::ParseIntError(_))
    ));
    // The first fault in the order of reading is reported.
    assert_eq!(
        Label::from_str(&good.replace("#0_", "#2_").replace("/K:", "/L:")),
        Err(ParseError::ParseBoolError)
    );
}

#[test]
fn partly_defined_blocks() {
    let good = fixtures()[0].0;
    // A mora needs all of its fields.
    let label = Label::from_str(&good.replace("/A:-3+1+7", "/A:-3+xx+7")).unwrap();
    assert_eq!(label.mora, None);
    // A word needs one of them.
    let label = Label::from_str(&good.replace("/B:xx-xx_xx", "/B:xx-xx_3")).unwrap();
    assert_eq!(
        label.word_prev,
        Some(Word {
            pos: None,
            ctype: None,
            cform: Some(3),
        })
    );
    // The pause is written the other way round.
    let label = Label::from_str(&good.replace("%0_xx_1", "%0_xx_0")).unwrap();
    assert_eq!(
        label.accent_phrase_next.unwrap().is_pause_insertion,
        Some(true)
    );
}

#[test]
fn numbers_in_text() {
    let mut label = fixtures()[0].1.clone();
    label.mora = Some(Mora {
        relative_accent_position: -128,
        position_forward: 0,
        position_backward: 255,
    });
    label.word_curr = Some(Word {
        pos: Some(7),
        ctype: Some(10),
        cform: Some(100),
    });
    let text = label.to_string();
    assert!(text.contains("/A:-128+0+255/B:"));
    assert!(text.contains("/C:07_10+100/D:"));
    assert_eq!(Label::from_str(&text), Ok(label));
}
