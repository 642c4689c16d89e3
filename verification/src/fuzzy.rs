//! The two outside computations that scoring rests on: the skim fuzzy matcher
//! and Unicode lowercasing. Their results are named here, not defined; the
//! two wrappers below are believed, not proved.

use vstd::prelude::*;
use fuzzy_matcher::skim::SkimMatcherV2;
use fuzzy_matcher::FuzzyMatcher;

verus! {

/// What the skim matcher, in its second version and with its default
/// settings, answers for the candidate text `choice` and the query `pattern`:
/// `None` where the query does not match the candidate, else a score, higher
/// for a better match.
pub uninterp spec fn skim_score(choice: Seq<char>, pattern: Seq<char>) -> Option<i64>;

/// The lowercase form of `text` as the standard library computes it.
pub uninterp spec fn lowercase(text: Seq<char>) -> Seq<char>;

/// Calls `FuzzyMatcher::fuzzy_match` on a `SkimMatcherV2::default()`.
///
/// Believed: the answer depends on the characters of the two texts alone, so
/// it is `skim_score` of them; and a score, which the matcher computes in
/// `i32` and then widens, lies in the range of `i32`.
#[verifier::external_body]
pub(crate) fn skim_match(choice: &str, pattern: &str) -> (score: Option<i64>)
    ensures
        score == skim_score(choice@, pattern@),
        score matches Some(s) ==> i32::MIN <= s <= i32::MAX,
{
    SkimMatcherV2::default().fuzzy_match(choice, pattern)
}

/// Calls `str::to_lowercase`.
///
/// Believed: the result depends on the characters of `text` alone, so it is
/// `lowercase` of them.
#[verifier::external_body]
pub(crate) fn to_lowercase(text: &str) -> (lower: String)
    ensures
        lower@ == lowercase(text@),
{
    text.to_lowercase()
}

} // verus!
