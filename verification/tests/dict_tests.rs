//! Tests of the line parser, the dictionary index, and the rhyme predicate.

use cmudict::{parse_rule, rhymes, Cmudict, Error, ParseError, Rule, Stress, Symbol};

fn lines(texts: &[&str]) -> Vec<String> {
    texts.iter().map(|t| t.to_string()).collect()
}

#[test]
fn parse_rule_keeps_label_and_symbols() {
    let rule = parse_rule("apple AE1 P AH0 L").unwrap();
    assert_eq!(rule.label(), "apple");
    assert_eq!(
        rule.pronunciation(),
        &[
            Symbol::AE(Stress::Primary),
            Symbol::P,
            Symbol::AH(Stress::Unstressed),
            Symbol::L,
        ]
    );
}

#[test]
fn parse_rule_twice_gives_equal_rules() {
    let line = "shelf SH EH1 L F";
    let first = parse_rule(line).unwrap();
    let second = parse_rule(line).unwrap();
    assert_eq!(first, second);
}

#[test]
fn parse_rule_rejects_empty_and_bare_label() {
    assert_eq!(parse_rule(""), Err(ParseError::UnexpectedEOF("label")));
    assert_eq!(parse_rule("   "), Err(ParseError::UnexpectedEOF("label")));
    assert_eq!(parse_rule("word"), Err(ParseError::UnexpectedEOF("symbol")));
    assert_eq!(
        parse_rule("word AE1 XX"),
        Err(ParseError::UnexpectedCharacter("A-Z", 'X'))
    );
}

#[test]
fn dictionary_basics() {
    let d = Cmudict::new(&lines(&[
        "apple AE1 P AH0 L",
        "unfit AH0 N F IH1 T",
        "every EH1 V ER0 IY0",
        "every(2) EH1 V R IY0",
    ]))
    .expect("Could not create Cmudict");

    let apple = d.get("apple");
    assert!(apple.is_some());
    let apple = apple.unwrap().first().unwrap();
    assert_eq!(
        apple,
        &Rule::new(
            "apple".to_string(),
            vec![
                Symbol::AE(Stress::Primary),
                Symbol::P,
                Symbol::AH(Stress::Unstressed),
                Symbol::L,
            ]
        )
    );

    let abf = d.get("abf");
    assert!(abf.is_none());

    let unfit = d.get("unfit");
    assert!(unfit.is_some());
    let unfit = unfit.unwrap().first().unwrap();
    assert_eq!(
        unfit,
        &Rule::new(
            "unfit".to_string(),
            vec![
                Symbol::AH(Stress::Unstressed),
                Symbol::N,
                Symbol::F,
                Symbol::IH(Stress::Primary),
                Symbol::T,
            ]
        )
    );
}

#[test]
fn multiplicity_keeps_both_variants_in_order() {
    let d = Cmudict::new(&lines(&["every EH1 V ER0 IY0", "every(2) EH1 V R IY0"]))
        .expect("Could not create Cmudict");
    let every = d.get("every").unwrap();
    let result = vec![
        Rule::new(
            "every".to_string(),
            vec![
                Symbol::EH(Stress::Primary),
                Symbol::V,
                Symbol::ER(Stress::Unstressed),
                Symbol::IY(Stress::Unstressed),
            ],
        ),
        Rule::new(
            "every(2)".to_string(),
            vec![
                Symbol::EH(Stress::Primary),
                Symbol::V,
                Symbol::R,
                Symbol::IY(Stress::Unstressed),
            ],
        ),
    ];
    assert_eq!(every, &result);
    assert_eq!(d.get("every(2)"), None);
}

#[test]
fn negative_lookup_is_empty_not_an_error() {
    let d = Cmudict::new(&lines(&["apple AE1 P AH0 L"])).expect("Could not create Cmudict");
    assert!(d.get("abf").is_none());
}

#[test]
fn malformed_line_fails_the_whole_build() {
    let r = Cmudict::new(&lines(&["apple AE1 P AH0 L", ";;note", "loneword", "elf EH1 L F"]));
    match r {
        Err(Error::InvalidLine(pos)) => assert_eq!(pos, 2),
        _ => panic!("expected the build to fail on the line without a space"),
    }
}

#[test]
fn bad_symbol_fails_the_whole_build() {
    let r = Cmudict::new(&lines(&["apple AE1 P AH0 L", "odd AE9"]));
    match r {
        Err(Error::RuleParseError(e)) => assert_eq!(e, ParseError::ExpectedStress('9')),
        _ => panic!("expected the build to fail on the bad stress digit"),
    }
}

#[test]
fn comments_and_trailing_notes_are_ignored() {
    let d = Cmudict::new(&lines(&[
        ";;this line is a comment",
        "word W ER1 D # a trailing note",
    ]))
    .expect("Could not create Cmudict");
    let word = d.get("word").unwrap().first().unwrap().clone();
    assert_eq!(
        word.pronunciation(),
        &[Symbol::W, Symbol::ER(Stress::Primary), Symbol::D]
    );
    assert!(d.get(";;this").is_none());
}

#[test]
fn rhyming() {
    let d = Cmudict::new(&lines(&[
        "elf EH1 L F",
        "shelf SH EH1 L F",
        "fish F IH1 SH",
    ]))
    .expect("Could not create Cmudict");

    let elf = d.get("elf").unwrap();
    let shelf = d.get("shelf").unwrap();
    assert!(rhymes(elf, shelf));

    let fish = d.get("fish").unwrap();
    assert!(!rhymes(elf, fish));
}

#[test]
fn rhyme_needs_a_syllable_nucleus() {
    let consonants = vec![Rule::new("shh".to_string(), vec![Symbol::SH])];
    let elf = vec![Rule::new(
        "elf".to_string(),
        vec![Symbol::EH(Stress::Primary), Symbol::L, Symbol::F],
    )];
    assert!(!rhymes(&consonants, &elf));
    assert!(!rhymes(&consonants, &consonants));
}

#[test]
fn rhyme_compares_any_pair_of_variants() {
    let d = Cmudict::new(&lines(&[
        "either IY1 DH ER0",
        "either(2) AY1 DH ER0",
        "neither N AY1 DH ER0",
    ]))
    .expect("Could not create Cmudict");
    let either = d.get("either").unwrap();
    let neither = d.get("neither").unwrap();
    assert!(rhymes(either, neither));
}

#[test]
fn monosyllabic_counts_syllable_nuclei() {
    let elf = parse_rule("elf EH1 L F").unwrap();
    assert!(elf.is_monosyllabic());
    let every = parse_rule("every EH1 V ER0 IY0").unwrap();
    assert!(!every.is_monosyllabic());
    let shh = Rule::new("shh".to_string(), vec![Symbol::SH]);
    assert!(shh.is_monosyllabic());
}

#[test]
fn label_disambiguation_strips_the_rightmost_group() {
    let d = Cmudict::new(&lines(&["a(b(2) AH0"])).expect("Could not create Cmudict");
    let found = d.get("a(b").unwrap();
    assert_eq!(found[0].label(), "a(b(2)");
}
