//! The tie to the regex engine: the compiled-pattern and error types,
//! and the two calls the matchers make, with the facts the engine's
//! documentation gives about them.

use vstd::prelude::*;

verus! {

#[verifier::external_type_specification]
#[verifier::external_body]
pub struct ExRegex(regex::Regex);

#[verifier::external_type_specification]
#[verifier::external_body]
pub struct ExRegexError(regex::Error);

/// Whether the regex engine accepts `pattern`; `regex::Regex::new`
/// succeeds or fails on the pattern text alone.
pub uninterp spec fn regex_compiles(pattern: Seq<char>) -> bool;

/// The pattern text a compiled regex holds (what it was built from).
pub uninterp spec fn regex_source(re: regex::Regex) -> Seq<char>;

/// Whether `pattern` matches somewhere inside `text`; the engine's
/// documentation makes this a function of the two strings alone.
pub uninterp spec fn regex_match(pattern: Seq<char>, text: Seq<char>) -> bool;

/// Relies on `regex::Regex::new`: compilation fails exactly on invalid
/// pattern syntax, a property of the pattern text alone, and a compiled
/// regex is built from exactly the given pattern.
#[verifier::external_body]
pub(crate) fn regex_new(pattern: &str) -> (r: Result<regex::Regex, regex::Error>)
    ensures
        (r is Ok) == regex_compiles(pattern@),
        r matches Ok(re) ==> regex_source(re) == pattern@,
{
    regex::Regex::new(pattern)
}

/// Relies on `regex::Regex::is_match`: true exactly when the compiled
/// pattern matches somewhere in `text`, a function of the pattern and
/// the text alone.
#[verifier::external_body]
pub(crate) fn regex_is_match(re: &regex::Regex, text: &str) -> (r: bool)
    ensures
        r == regex_match(regex_source(*re), text@),
{
    re.is_match(text)
}

} // verus!
