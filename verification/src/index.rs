//! The dictionary index: canonical words mapped to their pronunciations.
//!
//! [`Cmudict::new`] consumes the dictionary's text lines in order, skipping
//! comment lines, and files every parsed rule under its canonical word: the
//! raw label up to the first space, with any trailing parenthesized
//! disambiguation suffix stripped.  Variants for one word accumulate in file
//! order.  [`Cmudict::get`] looks a word up by exact match.

use vstd::prelude::*;

use crate::errors::Error;
use crate::rules::{parse_rule, spec_parse_rule, Rule, RuleV};

verus! {

/// The mathematical content of the index: canonical words, each with its
/// pronunciation variants in insertion order, the words themselves in the
/// order of their first appearance.
pub type IndexV = Seq<(Seq<char>, Seq<RuleV>)>;

/// The views of a vector of rules.
pub open spec fn spec_rules_views(v: Seq<Rule>) -> Seq<RuleV> {
    v.map_values(|r: Rule| r@)
}

/// The prefix of `s` that stands before the first occurrence of `stop`
/// (all of `s` if there is none).
pub open spec fn spec_upto(s: Seq<char>, stop: char) -> Seq<char>
    decreases s.len(),
{
    if s.len() == 0 {
        Seq::empty()
    } else if s[0] == stop {
        Seq::empty()
    } else {
        seq![s[0]] + spec_upto(s.drop_first(), stop)
    }
}

/// A prefix bounded by the first occurrence of `stop` is a take.
pub proof fn lemma_upto_take(s: Seq<char>, stop: char, pos: int)
    requires
        0 <= pos <= s.len(),
        forall|k: int| 0 <= k < pos ==> s[k] != stop,
        pos < s.len() ==> s[pos] == stop,
    ensures
        spec_upto(s, stop) == s.take(pos),
    decreases s.len(),
{
    if s.len() == 0 {
        assert(s.take(pos) =~= Seq::<char>::empty());
    } else if s[0] == stop {
        assert(pos == 0);
        assert(s.take(pos) =~= Seq::<char>::empty());
    } else {
        assert(pos >= 1);
        let t = s.drop_first();
        assert(forall|k: int| 0 <= k < pos - 1 ==> t[k] == s[k + 1] && s[k + 1] != stop);
        assert(pos - 1 < t.len() ==> t[pos - 1] == s[pos]);
        lemma_upto_take(t, stop, pos - 1);
        assert(s.take(pos) =~= seq![s[0]] + t.take(pos - 1));
    }
}

/// The canonical form of a raw label: everything before the rightmost `(`,
/// or the label itself when it holds none.
pub open spec fn spec_canonical(s: Seq<char>) -> Seq<char> {
    match s.index_of_last('(') {
        Some(j) => s.take(j),
        None => s,
    }
}

/// Whether a line is a comment: it starts with `;;`.
pub open spec fn spec_is_comment(s: Seq<char>) -> bool {
    s.len() >= 2 && s[0] == ';' && s[1] == ';'
}

/// Where `k` first appears among the index's words.
pub open spec fn spec_find_key(ix: IndexV, k: Seq<char>) -> Option<int>
    decreases ix.len(),
{
    if ix.len() == 0 {
        None
    } else if ix[0].0 == k {
        Some(0int)
    } else {
        match spec_find_key(ix.drop_first(), k) {
            Some(j) => Some(j + 1),
            None => None,
        }
    }
}

/// [`spec_find_key`] names the first entry with the given word, and `None`
/// only when no entry has it.
pub proof fn lemma_find_key(ix: IndexV, k: Seq<char>)
    ensures
        match spec_find_key(ix, k) {
            Some(j) => 0 <= j < ix.len() && ix[j].0 == k && forall|m: int|
                0 <= m < j ==> ix[m].0 != k,
            None => forall|m: int| 0 <= m < ix.len() ==> ix[m].0 != k,
        },
    decreases ix.len(),
{
    if ix.len() == 0 {
    } else if ix[0].0 == k {
    } else {
        let t = ix.drop_first();
        lemma_find_key(t, k);
        assert(forall|m: int| 1 <= m < ix.len() ==> ix[m] == t[m - 1]);
    }
}

/// Files one rule under a word: appended to the word's variants when the
/// word is already present, else opening a new entry at the end.
pub open spec fn spec_insert(ix: IndexV, k: Seq<char>, rv: RuleV) -> IndexV {
    match spec_find_key(ix, k) {
        Some(j) => ix.update(j, (k, ix[j].1.push(rv))),
        None => ix.push((k, seq![rv])),
    }
}

/// The variants filed under a word, if any.
pub open spec fn spec_lookup(ix: IndexV, k: Seq<char>) -> Option<Seq<RuleV>> {
    match spec_find_key(ix, k) {
        Some(j) => Some(ix[j].1),
        None => None,
    }
}

/// The index the lines from position `pos` onward build on top of `acc`,
/// or the error that stops the build.
///
/// A comment line is skipped; a line without a space is rejected with its
/// position among all lines; any other line contributes the rule parsed from
/// its text up to a `#` comment delimiter, filed under the canonical form of
/// its text up to the first space.
pub open spec fn spec_build_from(lines: Seq<Seq<char>>, pos: int, acc: IndexV) -> Result<
    IndexV,
    Error,
>
    decreases lines.len(),
{
    if lines.len() == 0 {
        Ok(acc)
    } else {
        let line = lines[0];
        let rest = lines.drop_first();
        if spec_is_comment(line) {
            spec_build_from(rest, pos + 1, acc)
        } else if !line.contains(' ') {
            Err(Error::InvalidLine(pos as usize))
        } else {
            match spec_parse_rule(spec_upto(line, '#')) {
                Err(e) => Err(Error::RuleParseError(e)),
                Ok(rv) => spec_build_from(
                    rest,
                    pos + 1,
                    spec_insert(acc, spec_canonical(spec_upto(line, ' ')), rv),
                ),
            }
        }
    }
}

/// The index a whole dictionary builds, or the error that rejects it.
pub open spec fn spec_build(lines: Seq<Seq<char>>) -> Result<IndexV, Error> {
    spec_build_from(lines, 0, Seq::empty())
}

/// Well-formedness of an index: every canonical word has only one entry.
pub open spec fn spec_keys_unique(ix: IndexV) -> bool {
    forall|x: int, y: int| 0 <= x < y < ix.len() ==> ix[x].0 != ix[y].0
}

/// Filing a rule never duplicates a word's entry.
proof fn lemma_insert_keys_unique(ix: IndexV, k: Seq<char>, rv: RuleV)
    requires
        spec_keys_unique(ix),
    ensures
        spec_keys_unique(spec_insert(ix, k, rv)),
{
    lemma_find_key(ix, k);
    match spec_find_key(ix, k) {
        Some(j) => {
            let upd = ix.update(j, (k, ix[j].1.push(rv)));
            assert(forall|m: int| 0 <= m < upd.len() ==> upd[m].0 == ix[m].0);
        },
        None => {},
    }
}

/// Whatever well-formed index a build starts from, the index it produces is
/// well-formed too.
proof fn lemma_build_from_keys_unique(lines: Seq<Seq<char>>, pos: int, acc: IndexV)
    requires
        spec_keys_unique(acc),
    ensures
        spec_build_from(lines, pos, acc) matches Ok(ix) ==> spec_keys_unique(ix),
    decreases lines.len(),
{
    if lines.len() == 0 {
    } else {
        let line = lines[0];
        let rest = lines.drop_first();
        if spec_is_comment(line) {
            lemma_build_from_keys_unique(rest, pos + 1, acc);
        } else if !line.contains(' ') {
        } else {
            match spec_parse_rule(spec_upto(line, '#')) {
                Err(e) => {},
                Ok(rv) => {
                    let k = spec_canonical(spec_upto(line, ' '));
                    lemma_insert_keys_unique(acc, k, rv);
                    lemma_build_from_keys_unique(rest, pos + 1, spec_insert(acc, k, rv));
                },
            }
        }
    }
}

/// Every index a dictionary build produces is well-formed: one entry per
/// canonical word.
pub proof fn lemma_build_keys_unique(lines: Seq<Seq<char>>)
    ensures
        spec_build(lines) matches Ok(ix) ==> spec_keys_unique(ix),
{
    lemma_build_from_keys_unique(lines, 0, Seq::empty());
}

/// The views of the dictionary's text lines.
pub open spec fn spec_line_views(lines: Seq<String>) -> Seq<Seq<char>> {
    lines.map_values(|l: String| l@)
}

/// The mathematical content of a build result.
pub open spec fn spec_dict_result(r: Result<Cmudict, Error>) -> Result<IndexV, Error> {
    match r {
        Ok(d) => Ok(d@),
        Err(e) => Err(e),
    }
}

/// The view of one stored entry.
pub open spec fn spec_entry_view(e: (String, Vec<Rule>)) -> (Seq<char>, Seq<RuleV>) {
    (e.0@, spec_rules_views(e.1@))
}

/// A dictionary: every word of the source lines, mapped to its pronunciation
/// variants in file order.  Built once; never mutated afterwards.
#[derive(Debug)]
pub struct Cmudict {
    entries: Vec<(String, Vec<Rule>)>,
}

impl View for Cmudict {
    type V = IndexV;

    closed spec fn view(&self) -> IndexV {
        self.entries@.map_values(|e: (String, Vec<Rule>)| spec_entry_view(e))
    }
}

/// Decides whether two string slices hold the same characters.
fn str_eq(a: &str, b: &str) -> (r: bool)
    ensures
        r == (a@ == b@),
{
    let na = a.unicode_len();
    let nb = b.unicode_len();
    if na != nb {
        return false;
    }
    let mut i: usize = 0;
    while i < na
        invariant
            i <= na,
            na == a@.len(),
            nb == b@.len(),
            na == nb,
            forall|k: int| 0 <= k < i ==> a@[k] == b@[k],
        decreases na - i,
    {
        if a.get_char(i) != b.get_char(i) {
            return false;
        }
        i = i + 1;
    }
    proof {
        assert(a@ =~= b@);
    }
    true
}

/// The position of the first occurrence of `c` in `s`, if any.
fn find_first(s: &str, c: char) -> (r: Option<usize>)
    ensures
        match r {
            Some(i) => i < s@.len() && s@[i as int] == c && forall|k: int|
                0 <= k < i ==> s@[k] != c,
            None => forall|k: int| 0 <= k < s@.len() ==> s@[k] != c,
        },
{
    let n = s.unicode_len();
    let mut i: usize = 0;
    while i < n
        invariant
            i <= n,
            n == s@.len(),
            forall|k: int| 0 <= k < i ==> s@[k] != c,
        decreases n - i,
    {
        if s.get_char(i) == c {
            return Some(i);
        }
        i = i + 1;
    }
    None
}

/// The prefix of a line that stands before any `#` comment delimiter.
fn left(s: &str) -> (r: &str)
    ensures
        r@ == spec_upto(s@, '#'),
{
    match find_first(s, '#') {
        Some(i) => {
            proof {
                lemma_upto_take(s@, '#', i as int);
            }
            s.substring_char(0, i)
        },
        None => {
            proof {
                lemma_upto_take(s@, '#', s@.len() as int);
                assert(s@.take(s@.len() as int) =~= s@);
            }
            s
        },
    }
}

/// Strips a trailing parenthesized disambiguation suffix: everything from
/// the rightmost `(` onward is dropped.
fn split_label(s: &str) -> (r: &str)
    ensures
        r@ == spec_canonical(s@),
{
    let n = s.unicode_len();
    let mut i: usize = n;
    while i > 0
        invariant
            i <= n,
            n == s@.len(),
            forall|k: int| i <= k < n ==> s@[k] != '(',
        decreases i,
    {
        i = i - 1;
        if s.get_char(i) == '(' {
            proof {
                s@.index_of_last_ensures('(');
                match s@.index_of_last('(') {
                    Some(j) => {
                        assert(j == i as int);
                    },
                    None => {
                        assert(false);
                    },
                }
            }
            return s.substring_char(0, i);
        }
    }
    proof {
        s@.index_of_last_ensures('(');
        match s@.index_of_last('(') {
            Some(j) => {
                assert(false);
            },
            None => {},
        }
    }
    s
}

/// Whether a line is a comment, as [`spec_is_comment`] says.
fn is_comment(s: &str) -> (r: bool)
    ensures
        r == spec_is_comment(s@),
{
    s.unicode_len() >= 2 && s.get_char(0) == ';' && s.get_char(1) == ';'
}

/// Files one rule under its canonical word, as [`spec_insert`] says.
fn insert_rule(entries: &mut Vec<(String, Vec<Rule>)>, key: String, rule: Rule)
    ensures
        final(entries)@.map_values(|e: (String, Vec<Rule>)| spec_entry_view(e)) == spec_insert(
            old(entries)@.map_values(|e: (String, Vec<Rule>)| spec_entry_view(e)),
            key@,
            rule@,
        ),
{
    let ghost ix0 = entries@.map_values(|e: (String, Vec<Rule>)| spec_entry_view(e));
    let n = entries.len();
    let mut i: usize = 0;
    while i < n
        invariant
            i <= n,
            n == entries@.len(),
            entries@ == old(entries)@,
            ix0 == entries@.map_values(|e: (String, Vec<Rule>)| spec_entry_view(e)),
            forall|m: int| 0 <= m < i ==> ix0[m].0 != key@,
        decreases n - i,
    {
        if str_eq(entries[i].0.as_str(), key.as_str()) {
            let ghost bucket0 = entries@[i as int].1@;
            proof {
                assert(ix0[i as int] == spec_entry_view(entries@[i as int]));
                assert(ix0[i as int].0 == key@);
                lemma_find_key(ix0, key@);
                match spec_find_key(ix0, key@) {
                    Some(j) => {
                        assert(j == i as int);
                    },
                    None => {
                        assert(false);
                    },
                }
            }
            entries[i].1.push(rule);
            proof {
                assert(entries@[i as int].1@ =~= bucket0.push(rule));
                assert(spec_rules_views(bucket0.push(rule)) =~= spec_rules_views(bucket0).push(
                    rule@,
                ));
                assert(entries@.map_values(|e: (String, Vec<Rule>)| spec_entry_view(e))
                    =~= spec_insert(ix0, key@, rule@));
            }
            return ;
        }
        i = i + 1;
    }
    proof {
        lemma_find_key(ix0, key@);
        match spec_find_key(ix0, key@) {
            Some(j) => {
                assert(ix0[j].0 == key@);
                assert(false);
            },
            None => {},
        }
    }
    let mut bucket: Vec<Rule> = Vec::new();
    bucket.push(rule);
    entries.push((key, bucket));
    proof {
        assert(spec_rules_views(bucket@) =~= seq![rule@]);
        assert(entries@.map_values(|e: (String, Vec<Rule>)| spec_entry_view(e)) =~= spec_insert(
            ix0,
            key@,
            rule@,
        ));
    }
}

impl Cmudict {
    /// Builds a dictionary from its text lines, exactly as [`spec_build`]
    /// describes; all-or-nothing, so no index exists when any line fails.
    pub fn new(lines: &Vec<String>) -> (r: Result<Cmudict, Error>)
        ensures
            spec_dict_result(r) == spec_build(spec_line_views(lines@)),
            r matches Ok(d) ==> spec_keys_unique(d@),
    {
        proof {
            lemma_build_keys_unique(spec_line_views(lines@));
        }
        let ghost lv = spec_line_views(lines@);
        let n = lines.len();
        let mut entries: Vec<(String, Vec<Rule>)> = Vec::new();
        let mut idx: usize = 0;
        proof {
            assert(lv.skip(0) =~= lv);
            assert(entries@.map_values(|e: (String, Vec<Rule>)| spec_entry_view(e)) =~= Seq::<(
                Seq<char>,
                Seq<RuleV>,
            )>::empty());
        }
        while idx < n
            invariant
                idx <= n,
                n == lines@.len(),
                lv == spec_line_views(lines@),
                lv.len() == n,
                spec_build(lv) == spec_build_from(
                    lv.skip(idx as int),
                    idx as int,
                    entries@.map_values(|e: (String, Vec<Rule>)| spec_entry_view(e)),
                ),
            decreases n - idx,
        {
            let ghost acc0 = entries@.map_values(|e: (String, Vec<Rule>)| spec_entry_view(e));
            proof {
                assert(lv.skip(idx as int)[0] == lv[idx as int]);
                assert(lv.skip(idx as int).drop_first() =~= lv.skip(idx + 1));
            }
            let line = lines[idx].as_str();
            if !is_comment(line) {
                match find_first(line, ' ') {
                    None => {
                        proof {
                            assert(!lv[idx as int].contains(' '));
                        }
                        return Err(Error::InvalidLine(idx));
                    },
                    Some(sp) => {
                        proof {
                            assert(lv[idx as int].contains(' '));
                        }
                        let trimmed = left(line);
                        match parse_rule(trimmed) {
                            Err(e) => {
                                return Err(Error::RuleParseError(e));
                            },
                            Ok(rule) => {
                                proof {
                                    lemma_upto_take(line@, ' ', sp as int);
                                }
                                let raw = line.substring_char(0, sp);
                                let key = split_label(raw).to_owned();
                                insert_rule(&mut entries, key, rule);
                            },
                        }
                    },
                }
            }
            idx = idx + 1;
        }
        proof {
            assert(lv.skip(n as int) =~= Seq::<Seq<char>>::empty());
        }
        Ok(Cmudict { entries })
    }

    /// Looks a word up by exact, case-sensitive match against canonical
    /// words, handing back its variants in insertion order; `None` when the
    /// word is absent.
    pub fn get(&self, s: &str) -> (r: Option<&[Rule]>)
        ensures
            match r {
                Some(rules) => spec_lookup(self@, s@) == Some(spec_rules_views(rules@)),
                None => spec_lookup(self@, s@) is None,
            },
    {
        let n = self.entries.len();
        let mut i: usize = 0;
        while i < n
            invariant
                i <= n,
                n == self.entries@.len(),
                self@ == self.entries@.map_values(|e: (String, Vec<Rule>)| spec_entry_view(e)),
                forall|m: int| 0 <= m < i ==> self@[m].0 != s@,
            decreases n - i,
        {
            if str_eq(self.entries[i].0.as_str(), s) {
                proof {
                    assert(self@[i as int] == spec_entry_view(self.entries@[i as int]));
                    assert(self@[i as int].0 == s@);
                    lemma_find_key(self@, s@);
                    match spec_find_key(self@, s@) {
                        Some(j) => {
                            assert(j == i as int);
                        },
                        None => {
                            assert(false);
                        },
                    }
                }
                return Some(self.entries[i].1.as_slice());
            }
            i = i + 1;
        }
        proof {
            lemma_find_key(self@, s@);
            match spec_find_key(self@, s@) {
                Some(j) => {
                    assert(self@[j].0 == s@);
                    assert(false);
                },
                None => {},
            }
        }
        None
    }
}

} // verus!
