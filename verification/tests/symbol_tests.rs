//! Tests of the phoneme token grammar and the symbol classification.

use std::str::FromStr;

use cmudict::{parse_symbol, ParseError, Stress, Symbol};

#[test]
fn core_test_consonant() {
    let dh = "DH";
    let converted = Symbol::from_str(dh);
    assert!(converted.is_ok());
    assert_eq!(converted.unwrap(), Symbol::DH);
}

#[test]
fn core_test_vowel() {
    let aa = "AA1";
    let converted = Symbol::from_str(aa);
    assert!(converted.is_ok());
    assert_eq!(converted.unwrap(), Symbol::AA(Stress::Primary));
}

#[test]
fn core_test_vec() {
    let v = vec!["AA1", "K", "L", "TH"];
    let converted = v
        .iter()
        .map(|s| Symbol::from_str(s).unwrap())
        .collect::<Vec<_>>();
    assert_eq!(
        converted,
        vec![Symbol::AA(Stress::Primary), Symbol::K, Symbol::L, Symbol::TH,]
    );
}

#[test]
fn lib_test_consonant() {
    let dh = "DH";
    let converted = Symbol::from_str(dh);
    assert!(converted.is_ok());
    assert_eq!(converted.unwrap(), Symbol::DH);
}

#[test]
fn lib_test_vowel() {
    let aa = "AA1";
    let converted = Symbol::from_str(aa);
    assert!(converted.is_ok());
    assert_eq!(converted.unwrap(), Symbol::AA(Stress::Primary));
}

#[test]
fn lib_test_vec() {
    let v = vec!["AA1", "K", "L", "TH"];
    let converted = v
        .iter()
        .map(|s| Symbol::from_str(s).unwrap())
        .collect::<Vec<_>>();
    assert_eq!(
        converted,
        vec![Symbol::AA(Stress::Primary), Symbol::K, Symbol::L, Symbol::TH,]
    );
}

const VOWELS: [&str; 15] = [
    "AA", "AE", "AH", "AO", "AW", "AY", "EH", "ER", "EY", "IH", "IY", "OW", "OY", "UH", "UW",
];

const CONSONANTS: [&str; 24] = [
    "B", "CH", "D", "DH", "F", "G", "HH", "JH", "K", "L", "M", "N", "NG", "P", "R", "S", "SH",
    "T", "TH", "V", "W", "Y", "Z", "ZH",
];

#[test]
fn round_trip_every_vowel_token() {
    for code in VOWELS {
        for digit in ["0", "1", "2"] {
            let token = format!("{}{}", code, digit);
            let sym = parse_symbol(&token).unwrap();
            assert_eq!(sym.to_text(), token);
        }
    }
}

#[test]
fn round_trip_every_consonant_token() {
    for code in CONSONANTS {
        let sym = parse_symbol(code).unwrap();
        assert_eq!(sym.to_text(), *code);
    }
}

#[test]
fn bare_vowel_defaults_to_unstressed() {
    let sym = parse_symbol("AA").unwrap();
    assert_eq!(sym, Symbol::AA(Stress::Unstressed));
    assert_eq!(sym.to_text(), "AA0");
    assert_eq!(parse_symbol("AA0").unwrap(), sym);
}

#[test]
fn stress_digits_select_stress() {
    assert_eq!(parse_symbol("EH0").unwrap(), Symbol::EH(Stress::Unstressed));
    assert_eq!(parse_symbol("EH1").unwrap(), Symbol::EH(Stress::Primary));
    assert_eq!(parse_symbol("EH2").unwrap(), Symbol::EH(Stress::Secondary));
    assert_eq!(Stress::Unstressed.digit(), '0');
    assert_eq!(Stress::Primary.digit(), '1');
    assert_eq!(Stress::Secondary.digit(), '2');
}

#[test]
fn grammar_errors_name_the_offender() {
    assert_eq!(parse_symbol(""), Err(ParseError::UnexpectedEOF("character")));
    assert_eq!(
        parse_symbol("A"),
        Err(ParseError::UnexpectedEOFAfter("A, E, H, O, W, or Y", "A"))
    );
    assert_eq!(
        parse_symbol("AX"),
        Err(ParseError::UnexpectedCharacterAfter(
            "A, E, H, O, W, or Y",
            "A",
            'X'
        ))
    );
    assert_eq!(parse_symbol("AA3"), Err(ParseError::ExpectedStress('3')));
    assert_eq!(
        parse_symbol("Q"),
        Err(ParseError::UnexpectedCharacter("A-Z", 'Q'))
    );
    assert_eq!(parse_symbol("C"), Err(ParseError::UnexpectedEOFAfter("H", "C")));
    assert_eq!(
        parse_symbol("DA"),
        Err(ParseError::UnexpectedCharacterAfter("H or EOF", "D", 'A'))
    );
}

#[test]
fn bare_consonants_resolve_without_suffix() {
    assert_eq!(parse_symbol("D").unwrap(), Symbol::D);
    assert_eq!(parse_symbol("N").unwrap(), Symbol::N);
    assert_eq!(parse_symbol("NG").unwrap(), Symbol::NG);
    assert_eq!(parse_symbol("S").unwrap(), Symbol::S);
    assert_eq!(parse_symbol("T").unwrap(), Symbol::T);
    assert_eq!(parse_symbol("Z").unwrap(), Symbol::Z);
    assert_eq!(parse_symbol("ZH").unwrap(), Symbol::ZH);
}

#[test]
fn classification_follows_the_family() {
    let primary = Symbol::AE(Stress::Primary);
    assert!(primary.is_primary());
    assert!(!primary.is_secondary());
    assert!(!primary.is_unstressed());
    assert!(primary.is_syllable());

    let secondary = Symbol::OW(Stress::Secondary);
    assert!(!secondary.is_primary());
    assert!(secondary.is_secondary());
    assert!(!secondary.is_unstressed());
    assert!(secondary.is_syllable());

    let plain = Symbol::UW(Stress::Unstressed);
    assert!(!plain.is_primary());
    assert!(!plain.is_secondary());
    assert!(plain.is_unstressed());
    assert!(plain.is_syllable());

    let consonant = Symbol::K;
    assert!(!consonant.is_primary());
    assert!(!consonant.is_secondary());
    assert!(consonant.is_unstressed());
    assert!(!consonant.is_syllable());
}
