//! Regular-expression search, behind one trusted call.

use vstd::prelude::*;

verus! {

/// What a search for `pattern` in `text` finds: `None` where the pattern
/// matches nowhere (or is no valid pattern); otherwise the text of the first
/// capture group in the leftmost match, `None` inside where the pattern has
/// no such group or the group took no part in the match.
pub uninterp spec fn regex_capture(pattern: Seq<char>, text: Seq<char>) -> Option<
    Option<Seq<char>>,
>;

/// The view of a search result.
pub open spec fn capture_view(c: Option<Option<String>>) -> Option<Option<Seq<char>>> {
    match c {
        None => None,
        Some(None) => Some(None),
        Some(Some(s)) => Some(Some(s@)),
    }
}

/// Searches `text` for the leftmost match of `pattern` and hands out its
/// first capture group.
///
/// Wraps `regex::Regex::new` and `Regex::captures`. The contract names the
/// result: the same pattern and text always give the same answer. What the
/// answer is, is the regex crate's matter.
#[verifier::external_body]
pub(crate) fn first_capture(pattern: &str, text: &str) -> (r: Option<Option<String>>)
    ensures
        capture_view(r) == regex_capture(pattern@, text@),
{
    match regex::Regex::new(pattern) {
        Ok(re) => re.captures(text).map(|c| c.get(1).map(|m| m.as_str().to_owned())),
        Err(_) => None,
    }
}

} // verus!
