//! Regular expressions, by way of the `regex` crate.
//!
//! What a pattern matches is the crate's business: the contracts here only
//! give names to its answers, which depend on the pattern and the text
//! alone. `None` stands for a pattern that does not compile.

use vstd::prelude::*;

verus! {

/// `text` without the non-overlapping matches of `pattern`, as
/// `Regex::replace_all` with an empty replacement leaves it.
pub uninterp spec fn without_matches(pattern: Seq<char>, text: Seq<char>) -> Option<Seq<char>>;

/// `text` without the first match of `pattern`, as `Regex::replace` with an
/// empty replacement leaves it.
pub uninterp spec fn without_first_match(pattern: Seq<char>, text: Seq<char>) -> Option<Seq<char>>;

/// Whether `pattern` matches somewhere in `text`, as `Regex::captures`
/// finds.
pub uninterp spec fn has_match(pattern: Seq<char>, text: Seq<char>) -> Option<bool>;

/// `Regex::new`, then `Regex::replace_all` with an empty replacement.
#[verifier::external_body]
pub(crate) fn remove_all(pattern: &str, text: &str) -> (r: Option<String>)
    ensures
        crate::text::opt_view(r) == without_matches(pattern@, text@),
{
    match regex::Regex::new(pattern) {
        Ok(re) => Some(re.replace_all(text, "").into_owned()),
        Err(_) => None,
    }
}

/// `Regex::new`, then `Regex::replace` with an empty replacement.
#[verifier::external_body]
pub(crate) fn remove_first(pattern: &str, text: &str) -> (r: Option<String>)
    ensures
        crate::text::opt_view(r) == without_first_match(pattern@, text@),
{
    match regex::Regex::new(pattern) {
        Ok(re) => Some(re.replace(text, "").into_owned()),
        Err(_) => None,
    }
}

/// `Regex::new`, then `Regex::captures`: whether there is a match.
#[verifier::external_body]
pub(crate) fn find_match(pattern: &str, text: &str) -> (r: Option<bool>)
    ensures
        r == has_match(pattern@, text@),
{
    match regex::Regex::new(pattern) {
        Ok(re) => Some(re.captures(text).is_some()),
        Err(_) => None,
    }
}

} // verus!
