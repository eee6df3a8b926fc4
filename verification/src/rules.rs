//! Rules: one parsed dictionary entry, and the line parser that makes one.
//!
//! A dictionary line is a label followed by whitespace-separated phoneme
//! tokens.  [`parse_rule`] turns such a line into a [`Rule`]; the first
//! whitespace-separated fragment is kept verbatim as the label, and every
//! further fragment must be a phoneme token.

use vstd::prelude::*;

use crate::errors::ParseError;
use crate::symbols::{parse_symbol, spec_is_vowel, spec_parse_symbol, Symbol};

verus! {

/// The mathematical content of a [`Rule`]: its label and its pronunciation.
pub ghost struct RuleV {
    /// The word exactly as the line wrote it.
    pub label: Seq<char>,
    /// The ordered phoneme symbols.
    pub pronunciation: Seq<Symbol>,
}

/// The complete pronunciation of a single word: the word as written in the
/// dictionary (possibly with a disambiguation suffix such as `(2)`), and an
/// ordered, non-empty sequence of phoneme symbols.
#[derive(Debug, Clone, PartialEq)]
pub struct Rule {
    label: String,
    pronunciation: Vec<Symbol>,
}

impl View for Rule {
    type V = RuleV;

    closed spec fn view(&self) -> RuleV {
        RuleV { label: self.label@, pronunciation: self.pronunciation@ }
    }
}

/// How many syllable nuclei (vowel symbols) a pronunciation holds.
pub open spec fn spec_syllable_count(p: Seq<Symbol>) -> nat
    decreases p.len(),
{
    if p.len() == 0 {
        0
    } else {
        spec_syllable_count(p.drop_last()) + if spec_is_vowel(p.last()) {
            1nat
        } else {
            0nat
        }
    }
}

impl Rule {
    /// Builds a rule from a label and a pronunciation.
    pub fn new(label: String, pronunciation: Vec<Symbol>) -> (r: Rule)
        ensures
            r@ == (RuleV { label: label@, pronunciation: pronunciation@ }),
    {
        Rule { label, pronunciation }
    }

    /// The phoneme symbols of the word, in order.
    pub fn pronunciation(&self) -> (r: &[Symbol])
        ensures
            r@ == self@.pronunciation,
    {
        self.pronunciation.as_slice()
    }

    /// The word exactly as the dictionary line wrote it.
    pub fn label(&self) -> (r: &str)
        ensures
            r@ == self@.label,
    {
        self.label.as_str()
    }

    /// Returns `true` if fewer than two of the pronunciation's symbols are
    /// syllable nuclei.
    pub fn is_monosyllabic(&self) -> (r: bool)
        ensures
            r == (spec_syllable_count(self@.pronunciation) < 2),
    {
        let n = self.pronunciation.len();
        let mut count: usize = 0;
        let mut i: usize = 0;
        while i < n
            invariant
                i <= n,
                n == self@.pronunciation.len(),
                count == spec_syllable_count(self@.pronunciation.take(i as int)),
                count <= i,
            decreases n - i,
        {
            proof {
                assert(self@.pronunciation.take(i + 1).drop_last() =~= self@.pronunciation.take(
                    i as int,
                ));
            }
            if self.pronunciation[i].is_syllable() {
                count = count + 1;
            }
            i = i + 1;
        }
        proof {
            assert(self@.pronunciation.take(n as int) =~= self@.pronunciation);
        }
        count < 2
    }
}

/// The whitespace that separates the fragments of a dictionary line.
pub open spec fn spec_is_space(c: char) -> bool {
    c == ' ' || c == '\t' || c == '\n' || c == '\r'
}

/// Decides [`spec_is_space`].
fn is_space(c: char) -> (r: bool)
    ensures
        r == spec_is_space(c),
{
    c == ' ' || c == '\t' || c == '\n' || c == '\r'
}

/// The whitespace-separated fragments of `s`, given that the characters of
/// `cur` have been read just before `s` without meeting a separator.
pub open spec fn spec_split_ws(s: Seq<char>, cur: Seq<char>) -> Seq<Seq<char>>
    decreases s.len(),
{
    if s.len() == 0 {
        if cur.len() == 0 {
            Seq::empty()
        } else {
            seq![cur]
        }
    } else if spec_is_space(s[0]) {
        if cur.len() == 0 {
            spec_split_ws(s.drop_first(), Seq::empty())
        } else {
            seq![cur] + spec_split_ws(s.drop_first(), Seq::empty())
        }
    } else {
        spec_split_ws(s.drop_first(), cur.push(s[0]))
    }
}

/// The whitespace-separated, non-empty fragments of a line, in order.
pub open spec fn spec_fragments(s: Seq<char>) -> Seq<Seq<char>> {
    spec_split_ws(s, Seq::empty())
}

/// The views of a vector of owned fragments.
pub open spec fn spec_string_views(v: Seq<String>) -> Seq<Seq<char>> {
    v.map_values(|f: String| f@)
}

/// Splits a line into its whitespace-separated fragments.
fn fragments(s: &str) -> (r: Vec<String>)
    ensures
        spec_string_views(r@) == spec_fragments(s@),
{
    let n = s.unicode_len();
    let mut r: Vec<String> = Vec::new();
    let mut start: usize = 0;
    let mut i: usize = 0;
    proof {
        assert(s@.skip(0) =~= s@);
        assert(s@.subrange(0, 0) =~= Seq::<char>::empty());
        assert(spec_string_views(r@) =~= Seq::<Seq<char>>::empty());
        assert(spec_string_views(r@) + spec_fragments(s@) =~= spec_fragments(s@));
    }
    while i < n
        invariant
            start <= i <= n,
            n == s@.len(),
            forall|k: int| start <= k < i ==> !spec_is_space(s@[k]),
            spec_fragments(s@) == spec_string_views(r@) + spec_split_ws(
                s@.skip(i as int),
                s@.subrange(start as int, i as int),
            ),
        decreases n - i,
    {
        let ghost i0 = i as int;
        let ghost start0 = start as int;
        let ghost r0 = r@;
        let ghost cur0 = s@.subrange(start0, i0);
        proof {
            assert(s@.skip(i0)[0] == s@[i0]);
            assert(s@.skip(i0).drop_first() =~= s@.skip(i0 + 1));
            assert(cur0.len() == i0 - start0);
        }
        let c = s.get_char(i);
        if is_space(c) {
            if start < i {
                let frag = s.substring_char(start, i).to_owned();
                r.push(frag);
            }
            start = i + 1;
        }
        i = i + 1;
        proof {
            let curn = s@.subrange(start as int, i as int);
            if spec_is_space(s@[i0]) {
                assert(curn =~= Seq::<char>::empty());
                if start0 < i0 {
                    assert(spec_split_ws(s@.skip(i0), cur0) == seq![cur0] + spec_split_ws(
                        s@.skip(i0 + 1),
                        Seq::empty(),
                    ));
                    assert(spec_string_views(r@) =~= spec_string_views(r0).push(cur0));
                    assert(spec_string_views(r@) + spec_split_ws(s@.skip(i0 + 1), Seq::empty())
                        =~= spec_string_views(r0) + (seq![cur0] + spec_split_ws(
                        s@.skip(i0 + 1),
                        Seq::empty(),
                    )));
                } else {
                    assert(cur0 =~= Seq::<char>::empty());
                }
            } else {
                assert(curn =~= cur0.push(s@[i0]));
            }
        }
    }
    proof {
        assert(s@.skip(n as int) =~= Seq::<char>::empty());
    }
    if start < n {
        let frag = s.substring_char(start, n).to_owned();
        let ghost r0 = r@;
        let ghost cur0 = s@.subrange(start as int, n as int);
        r.push(frag);
        proof {
            assert(cur0.len() == n - start);
            assert(spec_string_views(r@) =~= spec_string_views(r0).push(cur0));
            assert(spec_string_views(r@) =~= spec_string_views(r0) + seq![cur0]);
        }
    } else {
        proof {
            assert(s@.subrange(start as int, n as int) =~= Seq::<char>::empty());
            assert(spec_string_views(r@) + Seq::<Seq<char>>::empty() =~= spec_string_views(r@));
        }
    }
    r
}

/// The symbols of a run of phoneme fragments, or the first fragment's error.
pub open spec fn spec_parse_symbols(frags: Seq<Seq<char>>) -> Result<Seq<Symbol>, ParseError>
    decreases frags.len(),
{
    if frags.len() == 0 {
        Ok(Seq::empty())
    } else {
        match spec_parse_symbol(frags[0]) {
            Err(e) => Err(e),
            Ok(sym) => match spec_parse_symbols(frags.drop_first()) {
                Err(e) => Err(e),
                Ok(rest) => Ok(seq![sym] + rest),
            },
        }
    }
}

/// Parses every fragment from `from` onward as a phoneme symbol,
/// short-circuiting on the first failure.
fn parse_symbols(frags: &Vec<String>, from: usize) -> (r: Result<Vec<Symbol>, ParseError>)
    requires
        from <= frags@.len(),
    ensures
        (match r {
            Ok(syms) => Ok::<Seq<Symbol>, ParseError>(syms@),
            Err(e) => Err(e),
        }) == spec_parse_symbols(spec_string_views(frags@).skip(from as int)),
{
    let ghost fv = spec_string_views(frags@);
    let n = frags.len();
    let mut syms: Vec<Symbol> = Vec::new();
    let mut i: usize = from;
    while i < n
        invariant
            from <= i <= n,
            n == frags@.len(),
            fv == spec_string_views(frags@),
            fv.len() == n,
            spec_parse_symbols(fv.skip(from as int)) == (match spec_parse_symbols(
                fv.skip(i as int),
            ) {
                Ok(rest) => Ok::<Seq<Symbol>, ParseError>(syms@ + rest),
                Err(e) => Err(e),
            }),
        decreases n - i,
    {
        proof {
            assert(fv.skip(i as int)[0] == fv[i as int]);
            assert(fv.skip(i as int).drop_first() =~= fv.skip(i + 1));
        }
        match parse_symbol(frags[i].as_str()) {
            Ok(sym) => {
                let ghost old_syms = syms@;
                syms.push(sym);
                proof {
                    if let Ok(rest) = spec_parse_symbols(fv.skip(i + 1)) {
                        assert(old_syms + (seq![sym] + rest) =~= syms@ + rest);
                    }
                }
            },
            Err(e) => {
                return Err(e);
            },
        }
        i = i + 1;
    }
    proof {
        assert(fv.skip(n as int) =~= Seq::<Seq<char>>::empty());
        assert(syms@ + Seq::<Symbol>::empty() =~= syms@);
    }
    Ok(syms)
}

/// The rule a dictionary line describes, or the error that rejects it.
///
/// The first fragment is the label; every further fragment must be a phoneme
/// token.  A line with no fragment at all has no label; a line whose label is
/// followed by no phoneme is rejected too, so a parsed rule always has a
/// non-empty pronunciation.
pub open spec fn spec_parse_rule(s: Seq<char>) -> Result<RuleV, ParseError> {
    let frags = spec_fragments(s);
    if frags.len() == 0 {
        Err(ParseError::UnexpectedEOF("label"))
    } else if frags.len() == 1 {
        Err(ParseError::UnexpectedEOF("symbol"))
    } else {
        match spec_parse_symbols(frags.drop_first()) {
            Err(e) => Err(e),
            Ok(syms) => Ok(RuleV { label: frags[0], pronunciation: syms }),
        }
    }
}

/// The mathematical content of a parse result.
pub open spec fn spec_rule_result(r: Result<Rule, ParseError>) -> Result<RuleV, ParseError> {
    match r {
        Ok(rule) => Ok(rule@),
        Err(e) => Err(e),
    }
}

/// Parses one dictionary line into a rule, exactly as [`spec_parse_rule`]
/// describes.
pub fn parse_rule(s: &str) -> (r: Result<Rule, ParseError>)
    ensures
        spec_rule_result(r) == spec_parse_rule(s@),
{
    let frags = fragments(s);
    if frags.len() == 0 {
        return Err(ParseError::UnexpectedEOF("label"));
    }
    if frags.len() == 1 {
        return Err(ParseError::UnexpectedEOF("symbol"));
    }
    proof {
        assert(spec_string_views(frags@).skip(1) =~= spec_fragments(s@).drop_first());
    }
    match parse_symbols(&frags, 1) {
        Ok(syms) => {
            let label = frags[0].clone();
            Ok(Rule::new(label, syms))
        },
        Err(e) => Err(e),
    }
}

impl core::str::FromStr for Rule {
    type Err = ParseError;

    fn from_str(s: &str) -> Result<Rule, ParseError> {
        parse_rule(s)
    }
}

/// Determinism: any two outcomes that [`parse_rule`] admits for lines with
/// the same text are the same rule, or the same error.
pub proof fn lemma_parse_rule_deterministic(
    s1: Seq<char>,
    s2: Seq<char>,
    r1: Result<Rule, ParseError>,
    r2: Result<Rule, ParseError>,
)
    requires
        s1 == s2,
        spec_rule_result(r1) == spec_parse_rule(s1),
        spec_rule_result(r2) == spec_parse_rule(s2),
    ensures
        spec_rule_result(r1) == spec_rule_result(r2),
{
}

} // verus!
