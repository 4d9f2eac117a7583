//! Regular expressions over path text, compiled by the `regex` crate.
//!
//! This module holds the compiled expression and the two calls into the
//! crate, and nothing else: a [`PathPattern`] is made only by
//! [`compile_pattern`], which compiles the source that it keeps.
use vstd::prelude::*;

verus! {

#[verifier::external_type_specification]
#[verifier::external_body]
pub struct ExRegex(lazy_regex::Regex);

#[verifier::external_type_specification]
#[verifier::external_body]
pub struct ExRegexError(lazy_regex::regex::Error);

/// Whether the `regex` crate accepts `pattern` as a regular expression.
pub uninterp spec fn regex_accepted(pattern: Seq<char>) -> bool;

/// Whether the regular expression `pattern` matches somewhere in `text`, as
/// the `regex` crate decides.
pub uninterp spec fn regex_match(pattern: Seq<char>, text: Seq<char>) -> bool;

/// A compiled regular expression, kept with its source. Only
/// [`compile_pattern`] makes one, from the source it keeps.
pub struct PathPattern {
    source: String,
    regex: lazy_regex::Regex,
}

impl PathPattern {
    /// The source of the expression.
    pub closed spec fn spec_source(&self) -> Seq<char> {
        self.source@
    }
}

/// Calls `Regex::new` on `pattern` and keeps `pattern` beside the result.
/// Claimed: it succeeds exactly when the crate accepts the pattern, which
/// depends on the pattern alone, and the source kept is the pattern.
#[verifier::external_body]
pub(crate) fn compile_pattern(pattern: &str) -> (r: Result<PathPattern, lazy_regex::regex::Error>)
    ensures
        r is Ok <==> regex_accepted(pattern@),
        r matches Ok(p) ==> p.spec_source() == pattern@,
{
    Ok(PathPattern { source: pattern.to_string(), regex: lazy_regex::Regex::new(pattern)? })
}

/// Calls `Regex::is_match` on the expression of `p`. Claimed: the answer is
/// `regex_match` of the source of `p`, from which [`compile_pattern`]
/// compiled that expression, and the text.
#[verifier::external_body]
pub(crate) fn pattern_is_match(p: &PathPattern, text: &str) -> (b: bool)
    ensures
        b == regex_match(p.spec_source(), text@),
{
    p.regex.is_match(text)
}

} // verus!
