//! Searching texts with regular expressions.
//!
//! The searching is done by the `regex` crate. What it finds is a function
//! of the pattern and the text alone, so the search has a name in
//! contracts, and nothing here says what a pattern means.

use regex::Regex;
use vstd::prelude::*;

verus! {

/// What `Captures::name` returns for a pattern, a text and a group's name:
/// nothing if the pattern does not build, else what the group of that name
/// spans in the leftmost match, if anything matches and the group took
/// part in it.
pub uninterp spec fn named_capture(pattern: Seq<char>, text: Seq<char>, group: Seq<char>) -> Option<
    Option<Seq<char>>,
>;

/// The views of a search's result.
pub open spec fn found_view(found: Option<Option<String>>) -> Option<Option<Seq<char>>> {
    match found {
        None => None,
        Some(None) => Some(None),
        Some(Some(text)) => Some(Some(text@)),
    }
}

/// Builds the pattern with `Regex::new`, searches the text with
/// `Regex::captures` and asks for one group with `Captures::name`. The
/// outer `None` stands for a pattern that the crate refuses; otherwise the
/// result holds the text that the group spans, taken with `Match::as_str`.
/// The contract names the result and claims no more.
#[verifier::external_body]
pub(crate) fn find_named(pattern: &str, text: &str, group: &str) -> (r: Option<Option<String>>)
    ensures
        found_view(r) == named_capture(pattern@, text@, group@),
{
    match Regex::new(pattern) {
        Ok(regex) => Some(
            regex.captures(text).and_then(|c| c.name(group)).map(|m| String::from(m.as_str())),
        ),
        Err(_) => None,
    }
}

} // verus!
