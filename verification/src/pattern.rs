//! Regular expressions and case folding, as the `regex` crate and the
//! standard library provide them.
//!
//! Nothing in this module is proved. Each function states what the code it
//! calls is documented to do; what a search returns is given a name, so that
//! the rest of the crate can speak of it exactly.

use vstd::prelude::*;

verus! {

/// `regex::Regex`, a compiled regular expression. Nothing of its inside is
/// known here.
#[verifier::external_type_specification]
#[verifier::external_body]
pub struct ExRegex(regex::Regex);

/// `regex::Error`, the reason why a pattern was refused. It is carried
/// through to the caller and never looked into.
#[verifier::external_type_specification]
#[verifier::external_body]
pub struct ExRegexError(regex::Error);

/// Whether `Regex::new` accepts the pattern text `source`.
pub uninterp spec fn pattern_compiles(source: Seq<char>) -> bool;

/// Whether `Regex::is_match` finds a match anywhere in `text`, for the
/// regular expression that `Regex::new` makes of `source`.
pub uninterp spec fn pattern_matches(source: Seq<char>, text: Seq<char>) -> bool;

/// The text of the leftmost match that `Regex::find` reports in `text`, if
/// there is one, for the regular expression that `Regex::new` makes of
/// `source`.
pub uninterp spec fn pattern_first_match(source: Seq<char>, text: Seq<char>) -> Option<Seq<char>>;

/// What `str::to_lowercase` makes of `text`.
pub uninterp spec fn lowercase_of(text: Seq<char>) -> Seq<char>;

/// A pattern text together with the regular expression that `Regex::new`
/// made of it. There is no other way to make one than `compile`, so the two
/// always belong together. Its view is the pattern text.
#[derive(Debug)]
pub struct Pattern {
    source: String,
    regex: regex::Regex,
}

impl View for Pattern {
    type V = Seq<char>;

    closed spec fn view(&self) -> Seq<char> {
        self.source@
    }
}

impl Pattern {
    /// The pattern text.
    pub fn source(&self) -> (source: &String)
        ensures
            source@ == self@,
    {
        &self.source
    }
}

/// Calls `Regex::new` and keeps the pattern text beside the result. It
/// succeeds on the sources for which `pattern_compiles` holds.
#[verifier::external_body]
pub(crate) fn compile(source: &str) -> (r: Result<Pattern, regex::Error>)
    ensures
        r is Ok <==> pattern_compiles(source@),
        r matches Ok(pattern) ==> pattern@ == source@,
{
    match regex::Regex::new(source) {
        Ok(regex) => Ok(Pattern { source: source.to_string(), regex }),
        Err(cause) => Err(cause),
    }
}

/// Calls `Regex::is_match`.
#[verifier::external_body]
pub(crate) fn is_match(pattern: &Pattern, text: &str) -> (b: bool)
    ensures
        b == pattern_matches(pattern@, text@),
{
    pattern.regex.is_match(text)
}

/// Calls `Regex::find` and copies the matched text out of the haystack.
#[verifier::external_body]
pub(crate) fn find(pattern: &Pattern, text: &str) -> (m: Option<String>)
    ensures
        match m {
            Some(found) => pattern_first_match(pattern@, text@) == Some(found@),
            None => pattern_first_match(pattern@, text@) is None,
        },
{
    match pattern.regex.find(text) {
        Some(found) => Some(found.as_str().to_string()),
        None => None,
    }
}

/// Calls `str::to_lowercase`.
#[verifier::external_body]
pub(crate) fn lowercase(text: &str) -> (lower: String)
    ensures
        lower@ == lowercase_of(text@),
{
    text.to_lowercase()
}

} // verus!
