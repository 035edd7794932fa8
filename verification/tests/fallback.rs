use jlabel::{AllQuestion, Label, NoOpFallback, QuestionMatcher, RegexFallback, RegexQuestion};
use regex_syntax::hir::{Dot, Hir, Repetition};
use std::str::FromStr;

const TEST_LABEL: &str = "sil^k-o+N=n/A:-4+1+5/B:xx-xx_xx/C:09_xx+xx/D:xx+xx_xx/E:xx_xx!xx_xx-xx/F:5_5#0_xx@1_1|1_5/G:xx_xx%xx_xx_xx/H:xx_xx/I:1-5@1+1&1-1|1+5/J:xx_xx/K:1+1-5";

#[test]
fn noop_ok() {
    let label = Label::from_str(TEST_LABEL).unwrap();
    assert!(NoOpFallback::<AllQuestion>::parse(&["*-o+*", "*-N+*"])
        .unwrap()
        .test(&label));
}

#[test]
fn noop() {
    let label = Label::from_str(TEST_LABEL).unwrap();
    assert!(!NoOpFallback::<AllQuestion>::parse(&["INVALID?*"])
        .unwrap()
        .test(&label));
}

#[test]
fn noop_from_parsed() {
    let label = Label::from_str(TEST_LABEL).unwrap();
    let parsed = NoOpFallback::from_parsed(AllQuestion::parse(&["*^k-*"]));
    assert!(matches!(parsed, NoOpFallback::Parsed(_)));
    assert!(parsed.test(&label));
    let failed = NoOpFallback::from_parsed(AllQuestion::parse(&[]));
    assert_eq!(failed, NoOpFallback::NoOp);
    assert!(!failed.test(&label));
}

#[test]
fn regex_ok() {
    let label = Label::from_str(TEST_LABEL).unwrap();
    assert!(RegexFallback::<AllQuestion>::parse(&["*-o+*", "*-N+*"])
        .unwrap()
        .test(&label));
}

#[test]
fn regex_regex() {
    let label = Label::from_str(TEST_LABEL).unwrap();
    assert!(RegexFallback::<AllQuestion>::parse(&["*^k-o+*"])
        .unwrap()
        .test(&label));
    assert!(!RegexFallback::<AllQuestion>::parse(&["INVALID?*"])
        .unwrap()
        .test(&label));

    assert!(!RegexFallback::<AllQuestion>::parse(&["^k-o+*"])
        .unwrap()
        .test(&label));
}

#[test]
fn fallback_regex() {
    let label = Label::from_str(TEST_LABEL).unwrap();

    assert!(RegexQuestion::parse(&["*^k-o+*"]).unwrap().test(&label));
    assert!(!RegexQuestion::parse(&["INVALID?*"]).unwrap().test(&label));

    assert!(!RegexQuestion::parse(&["^k-o+*"]).unwrap().test(&label));
}

#[test]
fn wildcard() {
    assert_eq!(
        RegexQuestion::parse_wildcard("*?^k-?o+*"),
        Hir::concat(vec![
            Hir::repetition(Repetition {
                min: 0,
                max: None,
                greedy: true,
                sub: Box::new(Hir::dot(Dot::AnyByteExceptLF)),
            }),
            Hir::dot(Dot::AnyByteExceptLF),
            Hir::literal(*b"^k-"),
            Hir::dot(Dot::AnyByteExceptLF),
            Hir::literal(*b"o+"),
            Hir::repetition(Repetition {
                min: 0,
                max: None,
                greedy: true,
                sub: Box::new(Hir::dot(Dot::AnyByteExceptLF)),
            })
        ])
    );
}

#[test]
fn regex_matches_whole_text() {
    let label = Label::from_str(TEST_LABEL).unwrap();
    let test = |patterns: &[&str]| RegexQuestion::parse(patterns).unwrap().test(&label);
    // The pattern has to reach the end of the text.
    assert!(!test(&["sil^k-o+"]));
    assert!(!test(&["*/K:1+1-"]));
    assert!(test(&["*/K:1+1-5"]));
    assert!(test(&["*/K:1+1-?"]));
    assert!(!test(&["*/K:1+1-??"]));
    assert!(test(&[TEST_LABEL]));
    assert!(test(&["*"]));
    assert!(!test(&[]));
    assert!(!test(&[""]));
    // One of the patterns is enough.
    assert!(test(&["*^x-*", "sil^?-o+*"]));
    assert!(!test(&["*^x-*", "sil^??-o+*"]));
    // Two conditions in one pattern.
    assert!(test(&["*^k-*/C:09_*"]));
    assert!(!test(&["*^k-*/C:08_*"]));
}

#[test]
fn regex_fallback_takes_over() {
    let label = Label::from_str(TEST_LABEL).unwrap();
    let patterns = ["*^k-*/C:09_*"];
    assert!(AllQuestion::parse(&patterns).is_err());
    let fallback = RegexFallback::<AllQuestion>::parse(&patterns).unwrap();
    assert!(matches!(fallback, RegexFallback::Regex(_)));
    assert!(fallback.test(&label));
    let parsed = RegexFallback::or_plain(AllQuestion::parse(&["*^k-*"]), &["*^k-*"]).unwrap();
    assert!(matches!(parsed, RegexFallback::Parsed(_)));
    assert!(parsed.test(&label));
}

#[test]
fn regex_stops_at_newline() {
    let mut label = Label::from_str(TEST_LABEL).unwrap();
    label.phoneme.c = Some("o\no".to_string());
    let test = |patterns: &[&str]| RegexQuestion::parse(patterns).unwrap().test(&label);
    // No wildcard stands for the end of a line.
    assert!(!test(&["*"]));
    assert!(!test(&["sil^k-o?o+*"]));
    assert!(test(&["sil^k-o\no+*"]));
    assert!(test(&["*-o\n?+N=*"]));
}

#[test]
fn regex_on_text_beyond_ascii() {
    let mut label = Label::from_str(TEST_LABEL).unwrap();
    label.phoneme.c = Some("é".to_string());
    let test = |patterns: &[&str]| RegexQuestion::parse(patterns).unwrap().test(&label);
    assert!(test(&["*k-é+N*"]));
    // A `?` stands for one byte, and the letter takes two.
    assert!(!test(&["*k-?+N*"]));
    assert!(test(&["*k-??+N*"]));
}

#[test]
fn regex_question_copies() {
    let label = Label::from_str(TEST_LABEL).unwrap();
    let question = RegexQuestion::parse(&["*^k-o+*"]).unwrap();
    let copy = question.clone();
    assert!(question.test(&label));
    assert!(copy.test(&label));
    let fallback = RegexFallback::<AllQuestion>::parse(&["*^k-*/C:09_*"]).unwrap();
    assert!(fallback.clone().test(&label));
}
