//! The rhyme predicate: two words rhyme when some pair of their
//! pronunciations agrees from the rightmost syllable nucleus onward.

use vstd::prelude::*;

use crate::index::spec_rules_views;
use crate::rules::{Rule, RuleV};
use crate::symbols::{spec_is_vowel, Symbol};

verus! {

/// The position of the rightmost syllable nucleus of a pronunciation.
pub open spec fn spec_last_syllable(p: Seq<Symbol>) -> Option<int>
    decreases p.len(),
{
    if p.len() == 0 {
        None
    } else if spec_is_vowel(p.last()) {
        Some(p.len() - 1)
    } else {
        spec_last_syllable(p.drop_last())
    }
}

/// [`spec_last_syllable`] names the rightmost vowel position, and `None`
/// only when no position holds a vowel.
pub proof fn lemma_last_syllable(p: Seq<Symbol>)
    ensures
        match spec_last_syllable(p) {
            Some(i) => 0 <= i < p.len() && spec_is_vowel(p[i]) && forall|j: int|
                i < j < p.len() ==> !spec_is_vowel(p[j]),
            None => forall|j: int| 0 <= j < p.len() ==> !spec_is_vowel(p[j]),
        },
    decreases p.len(),
{
    if p.len() == 0 {
    } else if spec_is_vowel(p.last()) {
    } else {
        let t = p.drop_last();
        lemma_last_syllable(t);
        assert(forall|j: int| 0 <= j < t.len() ==> t[j] == p[j]);
    }
}

/// Whether two single pronunciations rhyme: each has a rightmost syllable
/// nucleus, and from there on the two are exactly equal.
pub open spec fn spec_pair_rhymes(a: Seq<Symbol>, b: Seq<Symbol>) -> bool {
    match (spec_last_syllable(a), spec_last_syllable(b)) {
        (Some(i), Some(j)) => a.skip(i) == b.skip(j),
        _ => false,
    }
}

/// Whether two variant lists rhyme: some pronunciation of the one rhymes
/// with some pronunciation of the other.
pub open spec fn spec_rhymes(av: Seq<RuleV>, bv: Seq<RuleV>) -> bool {
    exists|i: int, j: int|
        0 <= i < av.len() && 0 <= j < bv.len() && spec_pair_rhymes(
            av[i].pronunciation,
            bv[j].pronunciation,
        )
}

/// Finds the rightmost syllable nucleus of a pronunciation, if any.
fn last_syllable(p: &[Symbol]) -> (r: Option<usize>)
    ensures
        match r {
            Some(i) => spec_last_syllable(p@) == Some(i as int),
            None => spec_last_syllable(p@) is None,
        },
{
    let n = p.len();
    let mut i: usize = n;
    while i > 0
        invariant
            i <= n,
            n == p@.len(),
            forall|j: int| i <= j < n ==> !spec_is_vowel(p@[j]),
        decreases i,
    {
        i = i - 1;
        if p[i].is_syllable() {
            proof {
                lemma_last_syllable(p@);
                match spec_last_syllable(p@) {
                    Some(k) => {
                        assert(k == i as int);
                    },
                    None => {
                        assert(false);
                    },
                }
            }
            return Some(i);
        }
    }
    proof {
        lemma_last_syllable(p@);
        match spec_last_syllable(p@) {
            Some(k) => {
                assert(spec_is_vowel(p@[k]));
                assert(false);
            },
            None => {},
        }
    }
    None
}

/// Decides whether two pronunciations are equal from the given positions to
/// their ends.
fn suffix_eq(a: &[Symbol], ai: usize, b: &[Symbol], bi: usize) -> (r: bool)
    requires
        ai <= a@.len(),
        bi <= b@.len(),
    ensures
        r == (a@.skip(ai as int) == b@.skip(bi as int)),
{
    let na = a.len();
    let nb = b.len();
    if na - ai != nb - bi {
        proof {
            assert(a@.skip(ai as int).len() != b@.skip(bi as int).len());
        }
        return false;
    }
    let mut k: usize = 0;
    while k < na - ai
        invariant
            k <= na - ai,
            ai <= na,
            bi <= nb,
            na == a@.len(),
            nb == b@.len(),
            na - ai == nb - bi,
            forall|m: int| 0 <= m < k ==> #[trigger] a@[ai + m] == b@[bi + m],
        decreases na - ai - k,
    {
        if a[ai + k] != b[bi + k] {
            proof {
                assert(a@.skip(ai as int)[k as int] != b@.skip(bi as int)[k as int]);
            }
            return false;
        }
        k = k + 1;
    }
    proof {
        assert forall|m: int| 0 <= m < a@.skip(ai as int).len() implies a@.skip(ai as int)[m]
            == b@.skip(bi as int)[m] by {
            assert(a@[ai + m] == b@[bi + m]);
        }
        assert(a@.skip(ai as int) =~= b@.skip(bi as int));
    }
    true
}

/// Decides whether two single pronunciations rhyme, as
/// [`spec_pair_rhymes`] says.
fn pair_rhymes(a: &[Symbol], b: &[Symbol]) -> (r: bool)
    ensures
        r == spec_pair_rhymes(a@, b@),
{
    proof {
        lemma_last_syllable(a@);
        lemma_last_syllable(b@);
    }
    match last_syllable(a) {
        None => false,
        Some(i) => match last_syllable(b) {
            None => false,
            Some(j) => suffix_eq(a, i, b, j),
        },
    }
}

/// Decides whether two words rhyme, given each word's pronunciation
/// variants: true exactly when some variant of the one rhymes with some
/// variant of the other, that is, both end with the same symbols from their
/// rightmost syllable nuclei onward.
pub fn rhymes(ones: &[Rule], twos: &[Rule]) -> (r: bool)
    ensures
        r == spec_rhymes(spec_rules_views(ones@), spec_rules_views(twos@)),
{
    let ghost av = spec_rules_views(ones@);
    let ghost bv = spec_rules_views(twos@);
    let n1 = ones.len();
    let n2 = twos.len();
    let mut i: usize = 0;
    while i < n1
        invariant
            i <= n1,
            n1 == ones@.len(),
            n2 == twos@.len(),
            av == spec_rules_views(ones@),
            bv == spec_rules_views(twos@),
            forall|x: int, y: int|
                0 <= x < i && 0 <= y < n2 ==> !spec_pair_rhymes(
                    av[x].pronunciation,
                    bv[y].pronunciation,
                ),
        decreases n1 - i,
    {
        let one = ones[i].pronunciation();
        let mut j: usize = 0;
        while j < n2
            invariant
                i < n1,
                j <= n2,
                n1 == ones@.len(),
                n2 == twos@.len(),
                av == spec_rules_views(ones@),
                bv == spec_rules_views(twos@),
                one@ == av[i as int].pronunciation,
                forall|y: int|
                    0 <= y < j ==> !spec_pair_rhymes(av[i as int].pronunciation, bv[y].pronunciation),
            decreases n2 - j,
        {
            let two = twos[j].pronunciation();
            if pair_rhymes(one, two) {
                proof {
                    assert(spec_pair_rhymes(av[i as int].pronunciation, bv[j as int].pronunciation));
                }
                return true;
            }
            j = j + 1;
        }
        i = i + 1;
    }
    false
}

} // verus!
