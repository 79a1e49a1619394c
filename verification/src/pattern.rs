//! Matching text against regular expressions through the `regex` crate.
//!
//! Nothing is proved of what a pattern matches: each answer has a name, and
//! the functions that decide on it are verified for every value of it.

use vstd::prelude::*;
use crate::text::views;

verus! {

/// What `Regex::is_match` answers for the pattern on `text`; `None` where
/// `Regex::new` refuses the pattern.
pub uninterp spec fn regex_is_match(pattern: Seq<char>, text: Seq<char>) -> Option<bool>;

/// The groups of the leftmost match of the pattern in `text`, as
/// `Regex::captures` gives them: group 0 is the whole match, and a group that
/// took no part is `None`. `None` as a whole where nothing matches or
/// `Regex::new` refuses the pattern.
pub uninterp spec fn regex_captures(pattern: Seq<char>, text: Seq<char>) -> Option<
    Seq<Option<Seq<char>>>,
>;

/// The views of a vector of optional strings.
pub open spec fn group_views(v: Seq<Option<String>>) -> Seq<Option<Seq<char>>> {
    v.map_values(
        |g: Option<String>|
            match g {
                Some(s) => Some(s@),
                None => None,
            },
    )
}

/// The views of the groups of a match, if there is one.
pub open spec fn captures_view(o: Option<Vec<Option<String>>>) -> Option<Seq<Option<Seq<char>>>> {
    match o {
        Some(v) => Some(group_views(v@)),
        None => None,
    }
}

/// Compiles `pattern` with `Regex::new` and asks `Regex::is_match` of `text`.
/// The contract only names the answer.
#[verifier::external_body]
pub(crate) fn is_match(pattern: &str, text: &str) -> (m: Option<bool>)
    ensures
        m == regex_is_match(pattern@, text@),
{
    match regex::Regex::new(pattern) {
        Ok(re) => Some(re.is_match(text)),
        Err(_) => None,
    }
}

/// Compiles `pattern` with `Regex::new` and hands back the groups that
/// `Regex::captures` finds in `text`. The contract only names the answer.
#[verifier::external_body]
pub(crate) fn captures(pattern: &str, text: &str) -> (groups: Option<Vec<Option<String>>>)
    ensures
        captures_view(groups) == regex_captures(pattern@, text@),
{
    let re = regex::Regex::new(pattern).ok()?;
    let found = re.captures(text)?;
    Some(found.iter().map(|g| g.map(|m| m.as_str().to_string())).collect())
}

/// Whether the pattern matches `text`; a pattern that does not compile
/// matches nothing.
pub open spec fn pattern_matches(pattern: Seq<char>, text: Seq<char>) -> bool {
    regex_is_match(pattern, text) == Some(true)
}

/// Whether `pattern` matches somewhere in `text`.
pub fn matches_pattern(pattern: &str, text: &str) -> (m: bool)
    ensures
        m == pattern_matches(pattern@, text@),
{
    match is_match(pattern, text) {
        Some(found) => found,
        None => false,
    }
}

} // verus!
