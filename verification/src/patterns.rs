//! Glob patterns, left to `glob`. A pattern is held as its text.

use vstd::prelude::*;

verus! {

/// Whether `glob` accepts `pattern` as a pattern.
pub uninterp spec fn glob_valid(pattern: Seq<char>) -> bool;

/// Whether the pattern `pattern`, which `glob` accepts, matches `text`.
pub uninterp spec fn glob_matches(pattern: Seq<char>, text: Seq<char>) -> bool;

/// Calls `glob::Pattern::new`. Trusted: whether the pattern is accepted is a
/// function of its text alone, named `glob_valid`.
#[verifier::external_body]
pub(crate) fn is_pattern(pattern: &str) -> (valid: bool)
    ensures
        valid == glob_valid(pattern@),
{
    glob::Pattern::new(pattern).is_ok()
}

/// Calls `glob::Pattern::matches` on the pattern that `glob::Pattern::new`
/// makes of `pattern`; `None` where it makes none. Trusted: the answer is a
/// function of the pattern's text and the text alone, named `glob_matches`.
#[verifier::external_body]
pub(crate) fn pattern_matches(pattern: &str, text: &str) -> (matched: Option<bool>)
    ensures
        matched == if glob_valid(pattern@) {
            Some(glob_matches(pattern@, text@))
        } else {
            None
        },
{
    glob::Pattern::new(pattern).ok().map(|compiled| compiled.matches(text))
}

} // verus!
