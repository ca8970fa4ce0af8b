//! Patterns that select fixtures.
//!
//! A harness names its fixtures by patterns, and each pattern reaches it as
//! the source text of a string literal: the pattern between two double
//! quotes. The patterns are written as for a list of files to ignore, and a
//! fixture is selected when that list would have it ignored.

use vstd::prelude::*;
use vstd::string::StrSliceExecFns;

verus! {

/// The double quote.
pub open spec fn quote() -> char {
    '"'
}

/// `literal` is some text between two double quotes.
pub open spec fn is_quoted(literal: Seq<char>) -> bool {
    literal.len() >= 2 && literal.first() == quote() && literal.last() == quote()
}

/// Takes the two double quotes off a string literal. Text that does not stand
/// between two double quotes is no literal and gives nothing.
///
/// What is between the quotes is returned as it is: escapes are not
/// resolved.
pub fn unquote(literal: &str) -> (r: Option<String>)
    ensures
        match r {
            Some(inner) => is_quoted(literal@) && inner@ == literal@.subrange(
                1,
                literal@.len() - 1,
            ),
            None => !is_quoted(literal@),
        },
{
    let n = literal.unicode_len();
    if n < 2 {
        return None;
    }
    if literal.get_char(0) != '"' || literal.get_char(n - 1) != '"' {
        return None;
    }
    Some(literal.substring_char(1, n - 1).to_owned())
}

/// What a list of ignore patterns says of one path.
#[derive(Clone, Copy, PartialEq, Eq, Structural, Debug)]
pub enum Matching {
    /// No pattern matches the path.
    Unmatched,
    /// The last pattern that matches the path says to ignore it.
    Ignored,
    /// The last pattern that matches the path is negated.
    Whitelisted,
}

/// `picked` holds, in increasing order, exactly the places at which
/// `matchings` has `Ignored`.
pub open spec fn picks_ignored(matchings: Seq<Matching>, picked: Seq<usize>) -> bool {
    &&& forall|k: int|
        0 <= k < picked.len() ==> (#[trigger] picked[k]) < matchings.len() && matchings[picked[k] as int]
            == Matching::Ignored
    &&& forall|j: int, k: int| 0 <= j < k < picked.len() ==> picked[j] < picked[k]
    &&& forall|i: int|
        0 <= i < matchings.len() && #[trigger] matchings[i] == Matching::Ignored ==> picked.contains(
            i as usize,
        )
}

/// Selects the fixtures: the places of the paths that the patterns would
/// have ignored, in the order of the paths. A path that no pattern matches
/// is not selected, and neither is one that a negated pattern takes out
/// again.
pub fn select(matchings: &Vec<Matching>) -> (picked: Vec<usize>)
    ensures
        picks_ignored(matchings@, picked@),
{
    let mut picked: Vec<usize> = Vec::new();
    let mut i: usize = 0;
    while i < matchings.len()
        invariant
            i <= matchings.len(),
            picks_ignored(matchings@.take(i as int), picked@),
        decreases matchings.len() - i,
    {
        let ghost before = picked@;
        let ghost seen = matchings@.take(i as int);
        let ghost next = matchings@.take(i + 1);
        if matchings[i] == Matching::Ignored {
            picked.push(i);
        }
        proof {
            assert forall|n: int| 0 <= n < next.len() && #[trigger] next[n] == Matching::Ignored implies picked@.contains(
                n as usize,
            ) by {
                if n < i {
                    assert(seen[n] == Matching::Ignored);
                    let k = choose|k: int| 0 <= k < before.len() && before[k] == n as usize;
                    assert(picked@[k] == n as usize);
                } else {
                    assert(picked@[before.len() as int] == i);
                }
            }
            assert forall|k: int| 0 <= k < picked@.len() implies (#[trigger] picked@[k]) < next.len()
                && next[picked@[k] as int] == Matching::Ignored by {
                if k < before.len() {
                    assert(before[k] < seen.len() && seen[before[k] as int] == Matching::Ignored);
                }
            }
            assert forall|j: int, k: int| 0 <= j < k < picked@.len() implies picked@[j] < picked@[k] by {
                assert(before[j] < seen.len());
            }
        }
        i += 1;
    }
    assert(matchings@.take(i as int) =~= matchings@);
    picked
}

} // verus!
