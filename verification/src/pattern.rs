//! Compiled regular expressions and replacement of their matches.
//!
//! Matching is the regex crate's. The contracts name its results and
//! say nothing of what a pattern matches.

use vstd::prelude::*;

verus! {

/// `regex::Regex`, a compiled pattern. Nothing inside it is visible here.
#[verifier::external_type_specification]
#[verifier::external_body]
pub struct ExRegex(regex::Regex);

/// `regex::Error`, the reason why a pattern did not compile. Nothing
/// inside it is visible here.
#[verifier::external_type_specification]
#[verifier::external_body]
pub struct ExRegexError(regex::Error);

/// Whether the regex crate compiles `pattern`.
pub uninterp spec fn regex_is_valid(pattern: Seq<char>) -> bool;

/// `haystack` with every non-overlapping match of `pattern` replaced by
/// `replacement`, as the regex crate does it (the replacement may refer
/// to capture groups).
pub uninterp spec fn regex_replace_all(
    pattern: Seq<char>,
    haystack: Seq<char>,
    replacement: Seq<char>,
) -> Seq<char>;

/// A compiled pattern together with the text it was compiled from.
/// Only `compile` builds one, so the two always belong together.
pub struct Pattern {
    source: String,
    compiled: regex::Regex,
}

impl View for Pattern {
    type V = Seq<char>;

    /// The text the pattern was compiled from.
    closed spec fn view(&self) -> Seq<char> {
        self.source@
    }
}

/// A pattern that did not compile.
#[derive(Clone, Debug, PartialEq, Eq)]
pub struct PatternError {
    /// The text that was refused.
    pub pattern: String,
    /// Why, in the words of the regex compiler.
    pub message: String,
}

/// Calls `regex::Regex::new`. Trusted: it succeeds exactly on the
/// patterns named by `regex_is_valid`, and the compiled pattern is kept
/// beside the text it came from.
#[verifier::external_body]
fn compile(pattern: &str) -> (made: Result<Pattern, regex::Error>)
    ensures
        made.is_ok() == regex_is_valid(pattern@),
        made matches Ok(p) ==> p@ == pattern@,
{
    regex::Regex::new(pattern).map(
        |compiled| Pattern { source: compiled.as_str().to_string(), compiled },
    )
}

/// Calls `regex::Regex::replace_all` with a text as the replacement.
/// Trusted: the result is the one named by `regex_replace_all`, a
/// function of the pattern, the haystack and the replacement alone.
#[verifier::external_body]
fn replace_all(pattern: &Pattern, haystack: &str, replacement: &str) -> (out: String)
    ensures
        out@ == regex_replace_all(pattern@, haystack@, replacement@),
{
    pattern.compiled.replace_all(haystack, replacement).into_owned()
}

/// Writes out a `regex::Error` through its `Display`. Nothing is
/// claimed of the text.
#[verifier::external_body]
fn describe(error: &regex::Error) -> (message: String) {
    format!("{}", error)
}

impl Pattern {
    /// Compiles `pattern`, or says why it cannot be compiled.
    pub fn new(pattern: &str) -> (made: Result<Pattern, PatternError>)
        ensures
            made.is_ok() == regex_is_valid(pattern@),
            made matches Ok(p) ==> p@ == pattern@,
            made matches Err(e) ==> e.pattern@ == pattern@,
    {
        match compile(pattern) {
            Ok(p) => Ok(p),
            Err(error) => Err(
                PatternError { pattern: pattern.to_owned(), message: describe(&error) },
            ),
        }
    }

    /// Replaces every match in `haystack` by `replacement`.
    pub fn replace_all(&self, haystack: &str, replacement: &str) -> (out: String)
        ensures
            out@ == regex_replace_all(self@, haystack@, replacement@),
    {
        replace_all(self, haystack, replacement)
    }
}

} // verus!
