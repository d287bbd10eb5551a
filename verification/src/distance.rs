//! Levenshtein edit distance: the mathematical definition used throughout the
//! contracts of the search engine, and the trusted binding to the
//! implementation that computes it.

use vstd::prelude::*;

verus! {

pub open spec fn min2(a: nat, b: nat) -> nat {
    if a <= b {
        a
    } else {
        b
    }
}

/// Minimum number of single-character insertions, deletions and
/// substitutions that turn `a` into `b`.
pub open spec fn edit_distance(a: Seq<char>, b: Seq<char>) -> nat
    decreases a.len() + b.len(),
{
    if a.len() == 0 {
        b.len()
    } else if b.len() == 0 {
        a.len()
    } else if a.first() == b.first() {
        edit_distance(a.drop_first(), b.drop_first())
    } else {
        1 + min2(
            min2(edit_distance(a.drop_first(), b), edit_distance(a, b.drop_first())),
            edit_distance(a.drop_first(), b.drop_first()),
        )
    }
}

/// Relies on levenshtein::levenshtein: the Levenshtein edit distance between
/// two strings, computed character by character.
#[verifier::external_body]
pub(crate) fn levenshtein_distance(a: &str, b: &str) -> (r: usize)
    ensures
        r == edit_distance(a@, b@),
{
    levenshtein::levenshtein(a, b)
}

} // verus!
