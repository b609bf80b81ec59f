//! The fuzzy-matching engine, behind one trusted call.
use vstd::prelude::*;

verus! {

/// The relevance the fuzzy matcher assigns to `choice` against `pattern`:
/// `None` when the pattern does not match at all. The matcher is a pure
/// algorithm with fixed settings, so the score is a function of the two
/// texts alone.
pub uninterp spec fn fuzzy_score(choice: Seq<char>, pattern: Seq<char>) -> Option<i64>;

/// Relies on fuzzy_matcher's SkimMatcherV2 with its default settings: its
/// fuzzy_match is deterministic in the candidate text and the query.
#[verifier::external_body]
pub(crate) fn fuzzy_match(choice: &str, pattern: &str) -> (r: Option<i64>)
    ensures
        r == fuzzy_score(choice@, pattern@),
{
    let matcher = fuzzy_matcher::skim::SkimMatcherV2::default();
    fuzzy_matcher::FuzzyMatcher::fuzzy_match(&matcher, choice, pattern)
}

/// The matcher's score with a miss counted as zero, the way providers rank
/// their candidates.
pub open spec fn spec_match_score(choice: Seq<char>, pattern: Seq<char>) -> i64 {
    match fuzzy_score(choice, pattern) {
        Some(s) => s,
        None => 0,
    }
}

/// The matcher's score for `choice` against `pattern`, zero on a miss.
pub fn match_score(choice: &str, pattern: &str) -> (r: i64)
    ensures
        r == spec_match_score(choice@, pattern@),
{
    match fuzzy_match(choice, pattern) {
        Some(s) => s,
        None => 0,
    }
}

} // verus!
