//! Regular expressions, as the `regex` crate matches them.
//!
//! What a pattern matches is not defined here: the functions below hand the
//! question to the crate and give its answers a name, so that contracts can
//! speak of them.

use vstd::prelude::*;

verus! {

/// `regex::Regex`, a compiled expression. Nothing inside it is seen here: it
/// is made by [`compile`] and handed back to the crate.
#[verifier::external_type_specification]
#[verifier::external_body]
pub struct ExRegex(regex::Regex);

/// The message with which the crate refuses a pattern; nothing for a pattern
/// that it compiles.
pub uninterp spec fn regex_compile_error(pattern: Seq<char>) -> Option<Seq<char>>;

/// The pattern that a compiled expression was made from, which the crate
/// keeps with it (`Regex::as_str`).
pub uninterp spec fn regex_source(re: regex::Regex) -> Seq<char>;

/// Whether the pattern matches somewhere in the text.
pub uninterp spec fn regex_matches(pattern: Seq<char>, text: Seq<char>) -> bool;

/// The capture groups of the leftmost match, the whole match first; a group
/// that took no part in the match is absent. Nothing where the pattern does
/// not match.
pub uninterp spec fn regex_groups(pattern: Seq<char>, text: Seq<char>) -> Option<
    Seq<Option<Seq<char>>>,
>;

/// The successive non-overlapping matches in the text, from the left.
pub uninterp spec fn regex_all_matches(pattern: Seq<char>, text: Seq<char>) -> Seq<Seq<char>>;

/// The views of a list of capture groups.
pub open spec fn group_views(groups: Seq<Option<String>>) -> Seq<Option<Seq<char>>> {
    Seq::new(
        groups.len(),
        |i: int|
            match groups[i] {
                Some(s) => Some(s@),
                None => None,
            },
    )
}

/// `regex::Regex::new`. The crate compiles the pattern or refuses it with a
/// message; the compiled expression keeps the pattern it was made from
/// (`Regex::as_str`).
#[verifier::external_body]
pub(crate) fn compile(pattern: &str) -> (r: Result<regex::Regex, String>)
    ensures
        match r {
            Ok(re) => regex_compile_error(pattern@) is None && regex_source(re) == pattern@,
            Err(message) => regex_compile_error(pattern@) == Some(message@),
        },
{
    regex::Regex::new(pattern).map_err(|e| e.to_string())
}

/// `regex::Regex::is_match`.
#[verifier::external_body]
pub(crate) fn is_match(re: &regex::Regex, text: &str) -> (r: bool)
    ensures
        r == regex_matches(regex_source(*re), text@),
{
    re.is_match(text)
}

/// `regex::Regex::captures`, each group of the match handed out as its text.
/// The first group is the whole match and is always present.
#[verifier::external_body]
pub(crate) fn captures(re: &regex::Regex, text: &str) -> (r: Option<Vec<Option<String>>>)
    ensures
        match r {
            Some(groups) => regex_groups(regex_source(*re), text@) == Some(group_views(groups@))
                && groups@.len() >= 1 && groups@[0] is Some,
            None => regex_groups(regex_source(*re), text@) is None,
        },
{
    re.captures(text).map(|c| c.iter().map(|m| m.map(|x| x.as_str().to_string())).collect())
}

/// `regex::Regex::find_iter`, each match handed out as its text.
#[verifier::external_body]
pub(crate) fn find_all(re: &regex::Regex, text: &str) -> (r: Vec<String>)
    ensures
        crate::text::views(r@) == regex_all_matches(regex_source(*re), text@),
{
    re.find_iter(text).map(|m| m.as_str().to_string()).collect()
}

} // verus!
