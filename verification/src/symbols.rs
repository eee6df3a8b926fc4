//! The phoneme alphabet: stress markers, symbols, and the token grammar.
//!
//! A phoneme token is one or two uppercase letters naming a sound, and, for
//! vowel sounds, an optional trailing stress digit (`0`, `1` or `2`).
//! [`parse_symbol`] recognizes one token; [`Symbol::to_text`] writes a symbol
//! back in its canonical form (vowels always carry their digit).

use vstd::prelude::*;

use crate::errors::ParseError;

verus! {

/// The stress a vowel symbol carries: none, primary or secondary.
#[derive(Debug, Clone, Copy, PartialEq, Eq, Structural)]
pub enum Stress {
    Unstressed,
    Primary,
    Secondary,
}

/// A single speech sound.  Vowel variants carry a [`Stress`]; consonant
/// variants carry nothing.
#[derive(Debug, Clone, Copy, PartialEq, Eq, Structural)]
#[allow(missing_docs)]
pub enum Symbol {
    AA(Stress),
    AE(Stress),
    AH(Stress),
    AO(Stress),
    AW(Stress),
    AY(Stress),
    B,
    CH,
    D,
    DH,
    EH(Stress),
    ER(Stress),
    EY(Stress),
    F,
    G,
    HH,
    IH(Stress),
    IY(Stress),
    JH,
    K,
    L,
    M,
    N,
    NG,
    OW(Stress),
    OY(Stress),
    P,
    R,
    S,
    SH,
    T,
    TH,
    UH(Stress),
    UW(Stress),
    V,
    W,
    Y,
    Z,
    ZH,
}

/// The digit character that writes a stress marker.
pub open spec fn spec_stress_digit(st: Stress) -> char {
    match st {
        Stress::Unstressed => '0',
        Stress::Primary => '1',
        Stress::Secondary => '2',
    }
}

/// The stress carried by a symbol: `Some` exactly for the vowel variants.
pub open spec fn spec_stress_of(sym: Symbol) -> Option<Stress> {
    match sym {
        Symbol::AA(st) => Some(st),
        Symbol::AE(st) => Some(st),
        Symbol::AH(st) => Some(st),
        Symbol::AO(st) => Some(st),
        Symbol::AW(st) => Some(st),
        Symbol::AY(st) => Some(st),
        Symbol::EH(st) => Some(st),
        Symbol::ER(st) => Some(st),
        Symbol::EY(st) => Some(st),
        Symbol::IH(st) => Some(st),
        Symbol::IY(st) => Some(st),
        Symbol::OW(st) => Some(st),
        Symbol::OY(st) => Some(st),
        Symbol::UH(st) => Some(st),
        Symbol::UW(st) => Some(st),
        _ => None,
    }
}

/// Whether a symbol belongs to a vowel family, whatever its stress.
pub open spec fn spec_is_vowel(sym: Symbol) -> bool {
    spec_stress_of(sym) is Some
}

/// The letters of a symbol's code, without any stress digit.
pub open spec fn spec_code(sym: Symbol) -> Seq<char> {
    match sym {
        Symbol::AA(_) => seq!['A', 'A'],
        Symbol::AE(_) => seq!['A', 'E'],
        Symbol::AH(_) => seq!['A', 'H'],
        Symbol::AO(_) => seq!['A', 'O'],
        Symbol::AW(_) => seq!['A', 'W'],
        Symbol::AY(_) => seq!['A', 'Y'],
        Symbol::B => seq!['B'],
        Symbol::CH => seq!['C', 'H'],
        Symbol::D => seq!['D'],
        Symbol::DH => seq!['D', 'H'],
        Symbol::EH(_) => seq!['E', 'H'],
        Symbol::ER(_) => seq!['E', 'R'],
        Symbol::EY(_) => seq!['E', 'Y'],
        Symbol::F => seq!['F'],
        Symbol::G => seq!['G'],
        Symbol::HH => seq!['H', 'H'],
        Symbol::IH(_) => seq!['I', 'H'],
        Symbol::IY(_) => seq!['I', 'Y'],
        Symbol::JH => seq!['J', 'H'],
        Symbol::K => seq!['K'],
        Symbol::L => seq!['L'],
        Symbol::M => seq!['M'],
        Symbol::N => seq!['N'],
        Symbol::NG => seq!['N', 'G'],
        Symbol::OW(_) => seq!['O', 'W'],
        Symbol::OY(_) => seq!['O', 'Y'],
        Symbol::P => seq!['P'],
        Symbol::R => seq!['R'],
        Symbol::S => seq!['S'],
        Symbol::SH => seq!['S', 'H'],
        Symbol::T => seq!['T'],
        Symbol::TH => seq!['T', 'H'],
        Symbol::UH(_) => seq!['U', 'H'],
        Symbol::UW(_) => seq!['U', 'W'],
        Symbol::V => seq!['V'],
        Symbol::W => seq!['W'],
        Symbol::Y => seq!['Y'],
        Symbol::Z => seq!['Z'],
        Symbol::ZH => seq!['Z', 'H'],
    }
}

/// The canonical text of a symbol: its code, and for vowels the stress digit.
pub open spec fn spec_symbol_text(sym: Symbol) -> Seq<char> {
    match spec_stress_of(sym) {
        Some(st) => spec_code(sym).push(spec_stress_digit(st)),
        None => spec_code(sym),
    }
}

impl Symbol {
    /// Returns `true` if the symbol is a vowel with primary stress.
    pub fn is_primary(&self) -> (r: bool)
        ensures
            r == (spec_stress_of(*self) == Some(Stress::Primary)),
    {
        match self {
            | Symbol::AA(Stress::Primary)
            | Symbol::AE(Stress::Primary)
            | Symbol::AH(Stress::Primary)
            | Symbol::AO(Stress::Primary)
            | Symbol::AW(Stress::Primary)
            | Symbol::AY(Stress::Primary)
            | Symbol::EH(Stress::Primary)
            | Symbol::ER(Stress::Primary)
            | Symbol::EY(Stress::Primary)
            | Symbol::IH(Stress::Primary)
            | Symbol::IY(Stress::Primary)
            | Symbol::OW(Stress::Primary)
            | Symbol::OY(Stress::Primary)
            | Symbol::UH(Stress::Primary)
            | Symbol::UW(Stress::Primary) => true,
            _ => false,
        }
    }

    /// Returns `true` if the symbol is a vowel with secondary stress.
    pub fn is_secondary(&self) -> (r: bool)
        ensures
            r == (spec_stress_of(*self) == Some(Stress::Secondary)),
    {
        match self {
            | Symbol::AA(Stress::Secondary)
            | Symbol::AE(Stress::Secondary)
            | Symbol::AH(Stress::Secondary)
            | Symbol::AO(Stress::Secondary)
            | Symbol::AW(Stress::Secondary)
            | Symbol::AY(Stress::Secondary)
            | Symbol::EH(Stress::Secondary)
            | Symbol::ER(Stress::Secondary)
            | Symbol::EY(Stress::Secondary)
            | Symbol::IH(Stress::Secondary)
            | Symbol::IY(Stress::Secondary)
            | Symbol::OW(Stress::Secondary)
            | Symbol::OY(Stress::Secondary)
            | Symbol::UH(Stress::Secondary)
            | Symbol::UW(Stress::Secondary) => true,
            _ => false,
        }
    }

    /// Returns `true` if the symbol carries no stress: every consonant, and
    /// every vowel whose stress is [`Stress::Unstressed`].
    pub fn is_unstressed(&self) -> (r: bool)
        ensures
            r == (!spec_is_vowel(*self) || spec_stress_of(*self) == Some(Stress::Unstressed)),
    {
        !self.is_primary() && !self.is_secondary()
    }

    /// Returns `true` if the symbol is a syllable nucleus, that is, a vowel
    /// of any stress.
    pub fn is_syllable(&self) -> (r: bool)
        ensures
            r == spec_is_vowel(*self),
    {
        match self {
            | Symbol::AA(..)
            | Symbol::AE(..)
            | Symbol::AH(..)
            | Symbol::AO(..)
            | Symbol::AW(..)
            | Symbol::AY(..)
            | Symbol::EH(..)
            | Symbol::ER(..)
            | Symbol::EY(..)
            | Symbol::IH(..)
            | Symbol::IY(..)
            | Symbol::OW(..)
            | Symbol::OY(..)
            | Symbol::UH(..)
            | Symbol::UW(..) => true,
            _ => false,
        }
    }
}

impl Stress {
    /// The digit character that writes this stress marker.
    pub fn digit(&self) -> (r: char)
        ensures
            r == spec_stress_digit(*self),
    {
        match self {
            Stress::Unstressed => '0',
            Stress::Primary => '1',
            Stress::Secondary => '2',
        }
    }
}

impl Symbol {
    /// The stress this symbol carries: `Some` exactly for vowels.
    pub fn stress(&self) -> (r: Option<Stress>)
        ensures
            r == spec_stress_of(*self),
    {
        match self {
            Symbol::AA(st) => Some(*st),
            Symbol::AE(st) => Some(*st),
            Symbol::AH(st) => Some(*st),
            Symbol::AO(st) => Some(*st),
            Symbol::AW(st) => Some(*st),
            Symbol::AY(st) => Some(*st),
            Symbol::EH(st) => Some(*st),
            Symbol::ER(st) => Some(*st),
            Symbol::EY(st) => Some(*st),
            Symbol::IH(st) => Some(*st),
            Symbol::IY(st) => Some(*st),
            Symbol::OW(st) => Some(*st),
            Symbol::OY(st) => Some(*st),
            Symbol::UH(st) => Some(*st),
            Symbol::UW(st) => Some(*st),
            _ => None,
        }
    }

    /// The symbol's code letters, without any stress digit.
    pub fn code_text(&self) -> (r: &'static str)
        ensures
            r@ == spec_code(*self),
    {
        let r: &'static str = match self {
            Symbol::AA(_) => "AA",
            Symbol::AE(_) => "AE",
            Symbol::AH(_) => "AH",
            Symbol::AO(_) => "AO",
            Symbol::AW(_) => "AW",
            Symbol::AY(_) => "AY",
            Symbol::B => "B",
            Symbol::CH => "CH",
            Symbol::D => "D",
            Symbol::DH => "DH",
            Symbol::EH(_) => "EH",
            Symbol::ER(_) => "ER",
            Symbol::EY(_) => "EY",
            Symbol::F => "F",
            Symbol::G => "G",
            Symbol::HH => "HH",
            Symbol::IH(_) => "IH",
            Symbol::IY(_) => "IY",
            Symbol::JH => "JH",
            Symbol::K => "K",
            Symbol::L => "L",
            Symbol::M => "M",
            Symbol::N => "N",
            Symbol::NG => "NG",
            Symbol::OW(_) => "OW",
            Symbol::OY(_) => "OY",
            Symbol::P => "P",
            Symbol::R => "R",
            Symbol::S => "S",
            Symbol::SH => "SH",
            Symbol::T => "T",
            Symbol::TH => "TH",
            Symbol::UH(_) => "UH",
            Symbol::UW(_) => "UW",
            Symbol::V => "V",
            Symbol::W => "W",
            Symbol::Y => "Y",
            Symbol::Z => "Z",
            Symbol::ZH => "ZH",
        };
        proof {
            reveal_strlit("AA");
            reveal_strlit("AE");
            reveal_strlit("AH");
            reveal_strlit("AO");
            reveal_strlit("AW");
            reveal_strlit("AY");
            reveal_strlit("B");
            reveal_strlit("CH");
            reveal_strlit("D");
            reveal_strlit("DH");
            reveal_strlit("EH");
            reveal_strlit("ER");
            reveal_strlit("EY");
            reveal_strlit("F");
            reveal_strlit("G");
            reveal_strlit("HH");
            reveal_strlit("IH");
            reveal_strlit("IY");
            reveal_strlit("JH");
            reveal_strlit("K");
            reveal_strlit("L");
            reveal_strlit("M");
            reveal_strlit("N");
            reveal_strlit("NG");
            reveal_strlit("OW");
            reveal_strlit("OY");
            reveal_strlit("P");
            reveal_strlit("R");
            reveal_strlit("S");
            reveal_strlit("SH");
            reveal_strlit("T");
            reveal_strlit("TH");
            reveal_strlit("UH");
            reveal_strlit("UW");
            reveal_strlit("V");
            reveal_strlit("W");
            reveal_strlit("Y");
            reveal_strlit("Z");
            reveal_strlit("ZH");
            assert(r@ =~= spec_code(*self));
        }
        r
    }

    /// Writes the symbol in its canonical text form: the code letters, and
    /// for a vowel the stress digit (`AE1`, `AH0`, `K`).
    pub fn to_text(&self) -> (r: String)
        ensures
            r@ == spec_symbol_text(*self),
    {
        let code = self.code_text();
        let mut out = code.to_owned();
        match self.stress() {
            Some(st) => {
                let digit: &'static str = match st {
                    Stress::Unstressed => "0",
                    Stress::Primary => "1",
                    Stress::Secondary => "2",
                };
                proof {
                    reveal_strlit("0");
                    reveal_strlit("1");
                    reveal_strlit("2");
                    assert(digit@ =~= seq![spec_stress_digit(st)]);
                }
                out.append(digit);
                proof {
                    assert(out@ =~= spec_symbol_text(*self));
                }
            },
            None => {},
        }
        out
    }
}

/// What the stress position of a vowel token holds: the token's third
/// character selects the stress, a missing third character defaults to
/// no stress, and anything else is a stress-marker error.  Characters
/// beyond the third are never examined.
pub open spec fn spec_parse_stress(s: Seq<char>) -> Result<Stress, ParseError> {
    if s.len() <= 2 {
        Ok(Stress::Unstressed)
    } else if s[2] == '0' {
        Ok(Stress::Unstressed)
    } else if s[2] == '1' {
        Ok(Stress::Primary)
    } else if s[2] == '2' {
        Ok(Stress::Secondary)
    } else {
        Err(ParseError::ExpectedStress(s[2]))
    }
}

/// The result of recognizing one phoneme token.
///
/// The first letter picks a family; where several codes share it, the second
/// letter picks the code; a vowel code then reads its stress position.  The
/// codes `D`, `N`, `S`, `T` and `Z` stand alone when the token ends after
/// them, and pair with `H` (or `G` for `N`) otherwise.  Characters after the
/// ones the grammar needs are ignored, as the recognizer never reads them.
pub open spec fn spec_parse_symbol(s: Seq<char>) -> Result<Symbol, ParseError> {
    if s.len() == 0 {
        Err(ParseError::UnexpectedEOF("character"))
    } else if s[0] == 'A' {
        if s.len() == 1 {
            Err(ParseError::UnexpectedEOFAfter("A, E, H, O, W, or Y", "A"))
        } else if s[1] == 'A' {
            spec_with_stress(s, |st: Stress| Symbol::AA(st))
        } else if s[1] == 'E' {
            spec_with_stress(s, |st: Stress| Symbol::AE(st))
        } else if s[1] == 'H' {
            spec_with_stress(s, |st: Stress| Symbol::AH(st))
        } else if s[1] == 'O' {
            spec_with_stress(s, |st: Stress| Symbol::AO(st))
        } else if s[1] == 'W' {
            spec_with_stress(s, |st: Stress| Symbol::AW(st))
        } else if s[1] == 'Y' {
            spec_with_stress(s, |st: Stress| Symbol::AY(st))
        } else {
            Err(ParseError::UnexpectedCharacterAfter("A, E, H, O, W, or Y", "A", s[1]))
        }
    } else if s[0] == 'E' {
        if s.len() == 1 {
            Err(ParseError::UnexpectedEOFAfter("H, R, or Y", "E"))
        } else if s[1] == 'H' {
            spec_with_stress(s, |st: Stress| Symbol::EH(st))
        } else if s[1] == 'R' {
            spec_with_stress(s, |st: Stress| Symbol::ER(st))
        } else if s[1] == 'Y' {
            spec_with_stress(s, |st: Stress| Symbol::EY(st))
        } else {
            Err(ParseError::UnexpectedCharacterAfter("H, R, or Y", "E", s[1]))
        }
    } else if s[0] == 'I' {
        if s.len() == 1 {
            Err(ParseError::UnexpectedEOFAfter("H or Y", "I"))
        } else if s[1] == 'H' {
            spec_with_stress(s, |st: Stress| Symbol::IH(st))
        } else if s[1] == 'Y' {
            spec_with_stress(s, |st: Stress| Symbol::IY(st))
        } else {
            Err(ParseError::UnexpectedCharacterAfter("H or Y", "I", s[1]))
        }
    } else if s[0] == 'O' {
        if s.len() == 1 {
            Err(ParseError::UnexpectedEOFAfter("W or Y", "O"))
        } else if s[1] == 'W' {
            spec_with_stress(s, |st: Stress| Symbol::OW(st))
        } else if s[1] == 'Y' {
            spec_with_stress(s, |st: Stress| Symbol::OY(st))
        } else {
            Err(ParseError::UnexpectedCharacterAfter("W or Y", "O", s[1]))
        }
    } else if s[0] == 'U' {
        if s.len() == 1 {
            Err(ParseError::UnexpectedEOFAfter("H or W", "U"))
        } else if s[1] == 'H' {
            spec_with_stress(s, |st: Stress| Symbol::UH(st))
        } else if s[1] == 'W' {
            spec_with_stress(s, |st: Stress| Symbol::UW(st))
        } else {
            Err(ParseError::UnexpectedCharacterAfter("H or W", "U", s[1]))
        }
    } else if s[0] == 'B' {
        Ok(Symbol::B)
    } else if s[0] == 'C' {
        if s.len() == 1 {
            Err(ParseError::UnexpectedEOFAfter("H", "C"))
        } else if s[1] == 'H' {
            Ok(Symbol::CH)
        } else {
            Err(ParseError::UnexpectedCharacterAfter("H", "C", s[1]))
        }
    } else if s[0] == 'D' {
        if s.len() == 1 {
            Ok(Symbol::D)
        } else if s[1] == 'H' {
            Ok(Symbol::DH)
        } else {
            Err(ParseError::UnexpectedCharacterAfter("H or EOF", "D", s[1]))
        }
    } else if s[0] == 'F' {
        Ok(Symbol::F)
    } else if s[0] == 'G' {
        Ok(Symbol::G)
    } else if s[0] == 'H' {
        if s.len() == 1 {
            Err(ParseError::UnexpectedEOFAfter("H", "H"))
        } else if s[1] == 'H' {
            Ok(Symbol::HH)
        } else {
            Err(ParseError::UnexpectedCharacterAfter("H", "H", s[1]))
        }
    } else if s[0] == 'J' {
        if s.len() == 1 {
            Err(ParseError::UnexpectedEOFAfter("H", "J"))
        } else if s[1] == 'H' {
            Ok(Symbol::JH)
        } else {
            Err(ParseError::UnexpectedCharacterAfter("H", "J", s[1]))
        }
    } else if s[0] == 'K' {
        Ok(Symbol::K)
    } else if s[0] == 'L' {
        Ok(Symbol::L)
    } else if s[0] == 'M' {
        Ok(Symbol::M)
    } else if s[0] == 'N' {
        if s.len() == 1 {
            Ok(Symbol::N)
        } else if s[1] == 'G' {
            Ok(Symbol::NG)
        } else {
            Err(ParseError::UnexpectedCharacterAfter("G or EOF", "N", s[1]))
        }
    } else if s[0] == 'P' {
        Ok(Symbol::P)
    } else if s[0] == 'R' {
        Ok(Symbol::R)
    } else if s[0] == 'S' {
        if s.len() == 1 {
            Ok(Symbol::S)
        } else if s[1] == 'H' {
            Ok(Symbol::SH)
        } else {
            Err(ParseError::UnexpectedCharacterAfter("H or EOF", "S", s[1]))
        }
    } else if s[0] == 'T' {
        if s.len() == 1 {
            Ok(Symbol::T)
        } else if s[1] == 'H' {
            Ok(Symbol::TH)
        } else {
            Err(ParseError::UnexpectedCharacterAfter("H or EOF", "T", s[1]))
        }
    } else if s[0] == 'V' {
        Ok(Symbol::V)
    } else if s[0] == 'W' {
        Ok(Symbol::W)
    } else if s[0] == 'Y' {
        Ok(Symbol::Y)
    } else if s[0] == 'Z' {
        if s.len() == 1 {
            Ok(Symbol::Z)
        } else if s[1] == 'H' {
            Ok(Symbol::ZH)
        } else {
            Err(ParseError::UnexpectedCharacterAfter("H or EOF", "Z", s[1]))
        }
    } else {
        Err(ParseError::UnexpectedCharacter("A-Z", s[0]))
    }
}

/// Wraps the token's stress position in the given vowel constructor.
pub open spec fn spec_with_stress(s: Seq<char>, mk: spec_fn(Stress) -> Symbol) -> Result<
    Symbol,
    ParseError,
> {
    match spec_parse_stress(s) {
        Ok(st) => Ok(mk(st)),
        Err(e) => Err(e),
    }
}

/// Reads the stress position of a vowel token.
fn parse_stress(s: &str) -> (r: Result<Stress, ParseError>)
    requires
        s@.len() >= 2,
    ensures
        r == spec_parse_stress(s@),
{
    if s.unicode_len() <= 2 {
        Ok(Stress::Unstressed)
    } else {
        let c = s.get_char(2);
        match c {
            '0' => Ok(Stress::Unstressed),
            '1' => Ok(Stress::Primary),
            '2' => Ok(Stress::Secondary),
            _ => Err(ParseError::ExpectedStress(c)),
        }
    }
}

/// Recognizes one phoneme token, exactly as [`spec_parse_symbol`] describes.
pub fn parse_symbol(s: &str) -> (r: Result<Symbol, ParseError>)
    ensures
        r == spec_parse_symbol(s@),
{
    let n = s.unicode_len();
    if n == 0 {
        return Err(ParseError::UnexpectedEOF("character"));
    }
    let c0 = s.get_char(0);
    match c0 {
        'A' => {
            if n == 1 {
                return Err(ParseError::UnexpectedEOFAfter("A, E, H, O, W, or Y", "A"));
            }
            let c1 = s.get_char(1);
            match c1 {
                'A' => match parse_stress(s) {
                    Ok(st) => Ok(Symbol::AA(st)),
                    Err(e) => Err(e),
                },
                'E' => match parse_stress(s) {
                    Ok(st) => Ok(Symbol::AE(st)),
                    Err(e) => Err(e),
                },
                'H' => match parse_stress(s) {
                    Ok(st) => Ok(Symbol::AH(st)),
                    Err(e) => Err(e),
                },
                'O' => match parse_stress(s) {
                    Ok(st) => Ok(Symbol::AO(st)),
                    Err(e) => Err(e),
                },
                'W' => match parse_stress(s) {
                    Ok(st) => Ok(Symbol::AW(st)),
                    Err(e) => Err(e),
                },
                'Y' => match parse_stress(s) {
                    Ok(st) => Ok(Symbol::AY(st)),
                    Err(e) => Err(e),
                },
                _ => Err(ParseError::UnexpectedCharacterAfter("A, E, H, O, W, or Y", "A", c1)),
            }
        },
        'E' => {
            if n == 1 {
                return Err(ParseError::UnexpectedEOFAfter("H, R, or Y", "E"));
            }
            let c1 = s.get_char(1);
            match c1 {
                'H' => match parse_stress(s) {
                    Ok(st) => Ok(Symbol::EH(st)),
                    Err(e) => Err(e),
                },
                'R' => match parse_stress(s) {
                    Ok(st) => Ok(Symbol::ER(st)),
                    Err(e) => Err(e),
                },
                'Y' => match parse_stress(s) {
                    Ok(st) => Ok(Symbol::EY(st)),
                    Err(e) => Err(e),
                },
                _ => Err(ParseError::UnexpectedCharacterAfter("H, R, or Y", "E", c1)),
            }
        },
        'I' => {
            if n == 1 {
                return Err(ParseError::UnexpectedEOFAfter("H or Y", "I"));
            }
            let c1 = s.get_char(1);
            match c1 {
                'H' => match parse_stress(s) {
                    Ok(st) => Ok(Symbol::IH(st)),
                    Err(e) => Err(e),
                },
                'Y' => match parse_stress(s) {
                    Ok(st) => Ok(Symbol::IY(st)),
                    Err(e) => Err(e),
                },
                _ => Err(ParseError::UnexpectedCharacterAfter("H or Y", "I", c1)),
            }
        },
        'O' => {
            if n == 1 {
                return Err(ParseError::UnexpectedEOFAfter("W or Y", "O"));
            }
            let c1 = s.get_char(1);
            match c1 {
                'W' => match parse_stress(s) {
                    Ok(st) => Ok(Symbol::OW(st)),
                    Err(e) => Err(e),
                },
                'Y' => match parse_stress(s) {
                    Ok(st) => Ok(Symbol::OY(st)),
                    Err(e) => Err(e),
                },
                _ => Err(ParseError::UnexpectedCharacterAfter("W or Y", "O", c1)),
            }
        },
        'U' => {
            if n == 1 {
                return Err(ParseError::UnexpectedEOFAfter("H or W", "U"));
            }
            let c1 = s.get_char(1);
            match c1 {
                'H' => match parse_stress(s) {
                    Ok(st) => Ok(Symbol::UH(st)),
                    Err(e) => Err(e),
                },
                'W' => match parse_stress(s) {
                    Ok(st) => Ok(Symbol::UW(st)),
                    Err(e) => Err(e),
                },
                _ => Err(ParseError::UnexpectedCharacterAfter("H or W", "U", c1)),
            }
        },
        'B' => Ok(Symbol::B),
        'C' => {
            if n == 1 {
                return Err(ParseError::UnexpectedEOFAfter("H", "C"));
            }
            let c1 = s.get_char(1);
            if c1 == 'H' {
                Ok(Symbol::CH)
            } else {
                Err(ParseError::UnexpectedCharacterAfter("H", "C", c1))
            }
        },
        'D' => {
            if n == 1 {
                return Ok(Symbol::D);
            }
            let c1 = s.get_char(1);
            if c1 == 'H' {
                Ok(Symbol::DH)
            } else {
                Err(ParseError::UnexpectedCharacterAfter("H or EOF", "D", c1))
            }
        },
        'F' => Ok(Symbol::F),
        'G' => Ok(Symbol::G),
        'H' => {
            if n == 1 {
                return Err(ParseError::UnexpectedEOFAfter("H", "H"));
            }
            let c1 = s.get_char(1);
            if c1 == 'H' {
                Ok(Symbol::HH)
            } else {
                Err(ParseError::UnexpectedCharacterAfter("H", "H", c1))
            }
        },
        'J' => {
            if n == 1 {
                return Err(ParseError::UnexpectedEOFAfter("H", "J"));
            }
            let c1 = s.get_char(1);
            if c1 == 'H' {
                Ok(Symbol::JH)
            } else {
                Err(ParseError::UnexpectedCharacterAfter("H", "J", c1))
            }
        },
        'K' => Ok(Symbol::K),
        'L' => Ok(Symbol::L),
        'M' => Ok(Symbol::M),
        'N' => {
            if n == 1 {
                return Ok(Symbol::N);
            }
            let c1 = s.get_char(1);
            if c1 == 'G' {
                Ok(Symbol::NG)
            } else {
                Err(ParseError::UnexpectedCharacterAfter("G or EOF", "N", c1))
            }
        },
        'P' => Ok(Symbol::P),
        'R' => Ok(Symbol::R),
        'S' => {
            if n == 1 {
                return Ok(Symbol::S);
            }
            let c1 = s.get_char(1);
            if c1 == 'H' {
                Ok(Symbol::SH)
            } else {
                Err(ParseError::UnexpectedCharacterAfter("H or EOF", "S", c1))
            }
        },
        'T' => {
            if n == 1 {
                return Ok(Symbol::T);
            }
            let c1 = s.get_char(1);
            if c1 == 'H' {
                Ok(Symbol::TH)
            } else {
                Err(ParseError::UnexpectedCharacterAfter("H or EOF", "T", c1))
            }
        },
        'V' => Ok(Symbol::V),
        'W' => Ok(Symbol::W),
        'Y' => Ok(Symbol::Y),
        'Z' => {
            if n == 1 {
                return Ok(Symbol::Z);
            }
            let c1 = s.get_char(1);
            if c1 == 'H' {
                Ok(Symbol::ZH)
            } else {
                Err(ParseError::UnexpectedCharacterAfter("H or EOF", "Z", c1))
            }
        },
        _ => Err(ParseError::UnexpectedCharacter("A-Z", c0)),
    }
}

impl core::str::FromStr for Symbol {
    type Err = ParseError;

    fn from_str(s: &str) -> Result<Symbol, ParseError> {
        parse_symbol(s)
    }
}

/// Parsing a symbol's canonical text always gives back the same symbol.
pub proof fn lemma_text_parses_back(sym: Symbol)
    ensures
        spec_parse_symbol(spec_symbol_text(sym)) == Ok::<Symbol, ParseError>(sym),
{
}

/// Round trip: writing a parsed symbol reproduces the token it was parsed
/// from, for every accepted token whose length matches the canonical form.
/// (A bare vowel code such as `AA` is also accepted, and writes back with
/// its default digit as `AA0`; a token with characters beyond the ones the
/// grammar reads, such as `B0`, writes back without them.)
#[verifier::rlimit(60)]
pub proof fn lemma_symbol_round_trip(s: Seq<char>, sym: Symbol)
    requires
        spec_parse_symbol(s) == Ok::<Symbol, ParseError>(sym),
        s.len() == spec_symbol_text(sym).len(),
    ensures
        s == spec_symbol_text(sym),
{
    if spec_is_vowel(sym) {
        assert(s =~= spec_symbol_text(sym));
    } else {
        assert(s =~= spec_symbol_text(sym));
    }
}

} // verus!


