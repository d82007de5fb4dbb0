//! Compiled regular expressions, each kept beside the pattern text it was compiled from.
use vstd::prelude::*;

verus! {

#[verifier::external_type_specification]
#[verifier::external_body]
pub struct ExRegex(regex::Regex);

#[verifier::external_type_specification]
#[verifier::external_body]
pub struct ExRegexError(regex::Error);

/// Whether `regex::Regex::new` accepts `pattern` (its syntax, under the default limits).
pub uninterp spec fn regex_compiles(pattern: Seq<char>) -> bool;

/// Whether the regex compiled from `pattern` matches somewhere in `haystack`.
pub uninterp spec fn regex_matches(pattern: Seq<char>, haystack: Seq<char>) -> bool;

/// A regex together with the pattern text it was compiled from. Values are made only by
/// `compile`, so the two always agree.
#[derive(Debug)]
pub struct Pattern {
    source: String,
    regex: regex::Regex,
}

impl View for Pattern {
    type V = Seq<char>;

    /// The pattern text.
    closed spec fn view(&self) -> Seq<char> {
        self.source@
    }
}

/// Compiles `pattern`.
/// Trusted: calls `regex::Regex::new`, which is deterministic in its argument; the
/// result keeps a copy of `pattern` beside the compiled regex.
#[verifier::external_body]
pub(crate) fn compile(pattern: &str) -> (r: Result<Pattern, regex::Error>)
    ensures
        r is Ok <==> regex_compiles(pattern@),
        r matches Ok(p) ==> p@ == pattern@,
{
    match regex::Regex::new(pattern) {
        Ok(regex) => Ok(Pattern { source: pattern.to_string(), regex }),
        Err(e) => Err(e),
    }
}

/// Whether `p` matches somewhere in `haystack`.
/// Trusted: calls `regex::Regex::is_match`, which depends only on the regex (so on the
/// pattern it was compiled from) and the haystack.
#[verifier::external_body]
pub(crate) fn is_match(p: &Pattern, haystack: &str) -> (r: bool)
    ensures
        r == regex_matches(p@, haystack@),
{
    p.regex.is_match(haystack)
}

/// The message of a pattern error.
/// Trusted: calls `ToString::to_string` on `regex::Error` (its `Display`); nothing is
/// stated of the text.
#[verifier::external_body]
pub(crate) fn error_text(e: &regex::Error) -> (r: String) {
    e.to_string()
}

} // verus!
