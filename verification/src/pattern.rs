//! Regular expressions, by way of the `regex` crate.
//!
//! What a pattern matches is `regex`'s business. The library names the
//! crate's answers and reasons about what it does with them.

use crate::error::AppError;
use vstd::prelude::*;

verus! {

/// `regex::Regex::new` accepts the pattern.
pub uninterp spec fn pattern_is_valid(pattern: Seq<char>) -> bool;

/// The capture groups of the leftmost match of `pattern` in `text`, as
/// `regex::Regex::captures` reports them: group 0 is the whole match, a group
/// that took no part in the match is `None`. `None` where nothing matches.
pub uninterp spec fn pattern_groups(pattern: Seq<char>, text: Seq<char>) -> Option<
    Seq<Option<Seq<char>>>,
>;

/// The text of group `index`, empty for a group that took no part in the
/// match or does not exist.
pub open spec fn group_text(groups: Seq<Option<Seq<char>>>, index: int) -> Seq<char> {
    if 0 <= index < groups.len() {
        match groups[index] {
            Some(text) => text,
            None => Seq::empty(),
        }
    } else {
        Seq::empty()
    }
}

/// `regex::Regex::new`: the error it reports for the pattern, if any.
#[verifier::external_body]
fn pattern_error(pattern: &str) -> (r: Option<regex::Error>)
    ensures
        r is None <==> pattern_is_valid(pattern@),
{
    regex::Regex::new(pattern).err()
}

/// `regex::Regex::captures` on `text`, with the expression that
/// `Regex::new` makes of the pattern; each group that `Captures::iter`
/// gives is copied out of the text by `Match::as_str`. The result is the
/// named one.
#[verifier::external_body]
fn match_groups(pattern: &str, text: &str) -> (r: Option<Vec<Option<String>>>)
    requires
        pattern_is_valid(pattern@),
    ensures
        r.deep_view() == pattern_groups(pattern@, text@),
{
    let compiled = regex::Regex::new(pattern).unwrap();
    compiled.captures(text).map(
        |found| found.iter().map(|group| group.map(|m| m.as_str().to_string())).collect(),
    )
}

/// Checks that the pattern compiles.
pub fn check_pattern(pattern: &str) -> (r: Result<(), AppError>)
    ensures
        r is Ok <==> pattern_is_valid(pattern@),
        r matches Err(e) ==> e is ParseError,
{
    match pattern_error(pattern) {
        Some(e) => Err(AppError::ParseError(e)),
        None => Ok(()),
    }
}

/// The capture groups of the leftmost match of `pattern` in `text`, or
/// `None` where nothing matches; an error where the pattern does not
/// compile.
pub fn captures(pattern: &str, text: &str) -> (r: Result<Option<Vec<Option<String>>>, AppError>)
    ensures
        r is Ok <==> pattern_is_valid(pattern@),
        r matches Ok(groups) ==> groups.deep_view() == pattern_groups(pattern@, text@),
        r matches Err(e) ==> e is ParseError,
{
    match check_pattern(pattern) {
        Err(e) => Err(e),
        Ok(_) => Ok(match_groups(pattern, text)),
    }
}

/// The text of group `index`, empty for a group that took no part in the
/// match or does not exist.
pub fn group_string(groups: &Vec<Option<String>>, index: usize) -> (r: String)
    ensures
        r@ == group_text(groups.deep_view(), index as int),
{
    if index < groups.len() {
        assert(groups.deep_view()[index as int] == groups[index as int].deep_view());
        match &groups[index] {
            Some(text) => text.clone(),
            None => String::new(),
        }
    } else {
        String::new()
    }
}

} // verus!
