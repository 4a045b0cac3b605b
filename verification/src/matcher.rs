//! Path patterns: regular expressions, compiled once when a route is
//! registered and matched against the path of every request.

use crate::error::PatternCompileError;
use regex::Regex;
use vstd::prelude::*;
use vstd::string::StringExecFns;

verus! {

/// `regex::Regex`, a compiled regular expression. Nothing of what it holds
/// is visible here.
#[verifier::external_type_specification]
#[verifier::external_body]
pub struct ExRegex(regex::Regex);

/// `regex::Error`, what `regex::Regex::new` fails with. Nothing of what it
/// holds is visible here.
#[verifier::external_type_specification]
#[verifier::external_body]
pub struct ExRegexError(regex::Error);

/// The pattern that a compiled expression was made with: for one that
/// `regex::Regex::new` returned, the text that was handed to it.
pub uninterp spec fn regex_source(compiled: regex::Regex) -> Seq<char>;

/// What `regex::Regex::is_match` returns for an expression made with
/// `pattern` on the haystack `text`: whether the pattern has a match
/// somewhere in the text.
pub uninterp spec fn pattern_matches(pattern: Seq<char>, text: Seq<char>) -> bool;

/// `regex::Regex::new` compiles a pattern. Whether it accepts a pattern is
/// left open. Of an expression that it returns, the pattern it was made
/// with is the text given, which the crate keeps and hands out again as
/// `Regex::as_str`.
pub assume_specification[ regex::Regex::new ](re: &str) -> (compiled: Result<
    regex::Regex,
    regex::Error,
>)
    ensures
        compiled matches Ok(expression) ==> regex_source(expression) == re@,
;

/// `regex::Regex::is_match` says whether there is a match for the
/// expression anywhere in the haystack. It does not fail, and its answer
/// depends on the pattern and the haystack alone: it is named
/// [`pattern_matches`].
pub assume_specification[ regex::Regex::is_match ](re: &regex::Regex, haystack: &str) -> (found:
    bool)
    ensures
        found == pattern_matches(regex_source(*re), haystack@),
;

/// Calls `to_string` on a `regex::Error`, which writes the message of its
/// `Display` impl. Nothing is claimed of the text.
#[verifier::external_body]
fn regex_error_text(error: &regex::Error) -> (text: String) {
    error.to_string()
}

/// A pattern for request paths to match.
pub struct PathMatcher {
    pub regex: Regex,
}

impl View for PathMatcher {
    type V = Seq<char>;

    /// The pattern of the matcher, as text.
    open spec fn view(&self) -> Seq<char> {
        regex_source(self.regex)
    }
}

impl PathMatcher {
    /// Makes a matcher of what compiling `pattern` gave: the compiled
    /// expression where there is one, and otherwise the error to report for
    /// the pattern.
    pub fn from_compiled(pattern: &str, compiled: Result<Regex, regex::Error>) -> (matcher:
        Result<PathMatcher, PatternCompileError>)
        ensures
            match compiled {
                Ok(expression) => matcher matches Ok(m) && m.regex == expression,
                Err(_) => matcher matches Err(e) && e.pattern@ == pattern@,
            },
    {
        match compiled {
            Ok(regex) => Ok(PathMatcher { regex }),
            Err(error) => Err(
                PatternCompileError {
                    pattern: String::from_str(pattern),
                    message: regex_error_text(&error),
                },
            ),
        }
    }

    /// Compiles `pattern`. A matcher that comes back matches by that
    /// pattern; an error that comes back names it.
    pub fn new(pattern: &str) -> (matcher: Result<PathMatcher, PatternCompileError>)
        ensures
            match matcher {
                Ok(m) => m@ == pattern@,
                Err(e) => e.pattern@ == pattern@,
            },
    {
        PathMatcher::from_compiled(pattern, Regex::new(pattern))
    }

    /// Whether the pattern has a match somewhere in `path`.
    pub fn is_match(&self, path: &str) -> (found: bool)
        ensures
            found == pattern_matches(self@, path@),
    {
        self.regex.is_match(path)
    }
}

} // verus!
