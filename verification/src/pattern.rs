//! Compiled regular expressions over which identifiers are matched.

use vstd::prelude::*;

use regex::Regex;

verus! {

/// `regex::Regex`, held opaque.
#[verifier::external_type_specification]
#[verifier::external_body]
pub struct ExRegex(Regex);

/// Whether `regex::Regex::new` accepts `pattern` (a valid pattern that
/// compiles within the default size limit).
pub uninterp spec fn regex_compiles(pattern: Seq<char>) -> bool;

/// Whether the regular expression compiled from `pattern` matches somewhere
/// in `text` (`regex::Regex::is_match`).
pub uninterp spec fn regex_matches(pattern: Seq<char>, text: Seq<char>) -> bool;

/// Compiles `pattern` with `regex::Regex::new`. The contract claims that
/// success depends on the pattern alone; on failure the error's display text
/// is returned, of which nothing is stated.
#[verifier::external_body]
fn compile(pattern: &str) -> (r: Result<Regex, String>)
    ensures
        r is Ok <==> regex_compiles(pattern@),
{
    Regex::new(pattern).map_err(|e| e.to_string())
}

/// A regular expression together with the pattern it was compiled from.
pub struct Pattern {
    source: String,
    regex: Regex,
}

/// Why a pattern could not be compiled: the text that `regex` gives.
#[derive(Clone, Debug, PartialEq, Eq)]
pub struct PatternError {
    pub message: String,
}

impl View for Pattern {
    type V = Seq<char>;

    closed spec fn view(&self) -> Seq<char> {
        self.source@
    }
}

/// Runs `regex::Regex::is_match` on the compiled expression of `p`. The
/// contract claims that the answer is a function of the pattern's source
/// and of the text, which holds since a `Pattern` is only built by
/// compiling its source.
#[verifier::external_body]
fn is_match(p: &Pattern, text: &str) -> (r: bool)
    ensures
        r == regex_matches(p@, text@),
{
    p.regex.is_match(text)
}

impl Pattern {
    /// Compiles a pattern.
    pub fn new(source: &str) -> (r: Result<Pattern, PatternError>)
        ensures
            r is Ok <==> regex_compiles(source@),
            r matches Ok(p) ==> p@ == source@,
    {
        match compile(source) {
            Ok(regex) => Ok(Pattern { source: source.to_owned(), regex }),
            Err(message) => Err(PatternError { message }),
        }
    }

    /// The pattern this expression was compiled from.
    pub fn as_str(&self) -> (s: &str)
        ensures
            s@ == self@,
    {
        self.source.as_str()
    }

    /// Whether the expression matches somewhere in `text`.
    pub fn is_match(&self, text: &str) -> (r: bool)
        ensures
            r == regex_matches(self@, text@),
    {
        is_match(self, text)
    }
}

} // verus!
