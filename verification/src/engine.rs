//! The regular-expression engine, as far as the filter relies on it.
//!
//! The engine is the `regex` crate. Nothing in this module is proved: each item
//! states what the filter takes for granted about the engine.

use regex::Regex;
use vstd::prelude::*;

verus! {

/// A compiled regular expression of the `regex` crate, opaque to the proofs.
#[verifier::external_type_specification]
#[verifier::external_body]
pub struct ExRegex(regex::Regex);

/// The error of the `regex` crate for an expression that does not compile.
#[verifier::external_type_specification]
#[verifier::external_body]
pub struct ExRegexError(regex::Error);

/// What `Regex::new` objects to in an expression text: `None` where the text
/// compiles, else what the error displays.
pub uninterp spec fn compile_complaint(pattern: Seq<char>) -> Option<Seq<char>>;

/// The text that `Regex::as_str` reports for a compiled expression.
pub uninterp spec fn regex_text(re: Regex) -> Seq<char>;

/// What `Regex::captures` finds for a compiled expression in a haystack: `None`
/// where the expression matches nowhere, else the text of every capture group of
/// the leftmost match, in the order of the groups' opening parentheses, with
/// `None` for a group that took no part in the match.
pub uninterp spec fn regex_captures(re: Regex, haystack: Seq<char>) -> Option<
    Seq<Option<Seq<char>>>,
>;

/// What `regex::Error` displays.
pub uninterp spec fn regex_error_text(error: regex::Error) -> Seq<char>;

/// `Regex::new` compiles `re` or says why it cannot: the outcome is the one that
/// [`compile_complaint`] names for the text, and a compiled expression keeps the
/// text it was built from. Nothing is claimed about which texts compile.
pub assume_specification[ Regex::new ](re: &str) -> (outcome: Result<Regex, regex::Error>)
    ensures
        match outcome {
            Ok(compiled) => compile_complaint(re@) is None && regex_text(compiled) == re@,
            Err(error) => compile_complaint(re@) == Some(regex_error_text(error)),
        },
;

/// `Regex::as_str` returns the text the expression was built from.
pub assume_specification<'a>[ Regex::as_str ](re: &'a Regex) -> (text: &'a str)
    ensures
        text@ == regex_text(*re),
;

/// `Regex::captures`, with every group of `Captures::iter` copied out as text
/// (`Match::as_str`). Group 0 is the whole match and is always present.
#[verifier::external_body]
pub(crate) fn capture_groups(re: &Regex, haystack: &str) -> (found: Option<Vec<Option<String>>>)
    ensures
        found.deep_view() == regex_captures(*re, haystack@),
        found matches Some(groups) ==> groups.len() >= 1 && groups[0] is Some,
{
    re.captures(haystack).map(
        |caps| caps.iter().map(|group| group.map(|m| m.as_str().to_string())).collect(),
    )
}

/// The `Display` text of a `regex::Error`.
#[verifier::external_body]
pub(crate) fn error_text(error: &regex::Error) -> (text: String)
    ensures
        text@ == regex_error_text(*error),
{
    error.to_string()
}

} // verus!
