//! Compiled high-risk patterns, backed by the `regex` crate.

use vstd::prelude::*;
use crate::text::owned;

verus! {

#[verifier::external_type_specification]
#[verifier::external_body]
pub struct ExRegex(regex::Regex);

/// Whether `regex::Regex::new` accepts `pattern` (valid syntax within the
/// crate's default size limit).
pub uninterp spec fn regex_accepts(pattern: Seq<char>) -> bool;

/// Whether the regular expression compiled from `pattern` matches somewhere
/// in `haystack` (`regex::Regex::is_match`).
pub uninterp spec fn regex_finds(pattern: Seq<char>, haystack: Seq<char>) -> bool;

/// A regular expression together with the source text it was compiled from.
///
/// The fields are private and only `compile` builds a value, so `regex` is
/// always the compilation of `source`.
pub struct PatternMatcher {
    source: String,
    regex: regex::Regex,
}

impl PatternMatcher {
    /// The source text this matcher was compiled from.
    pub closed spec fn source_view(&self) -> Seq<char> {
        self.source@
    }

    /// The source text this matcher was compiled from.
    pub fn source(&self) -> (s: &str)
        ensures
            s@ == self.source_view(),
    {
        self.source.as_str()
    }
}

/// Calls `regex::Regex::new(pattern)`: returns a matcher exactly when the
/// crate accepts the pattern, remembering the pattern as its source.
#[verifier::external_body]
fn regex_new(pattern: &str, source: String) -> (res: Option<PatternMatcher>)
    requires
        source@ == pattern@,
    ensures
        res is Some <==> regex_accepts(pattern@),
        res matches Some(m) ==> m.source_view() == pattern@,
{
    regex::Regex::new(pattern).ok().map(|regex| PatternMatcher { source, regex })
}

/// Calls `regex::Regex::is_match(haystack)` on the compiled pattern: the
/// result is whether the pattern's regular expression matches in `haystack`.
#[verifier::external_body]
fn regex_is_match(m: &PatternMatcher, haystack: &str) -> (b: bool)
    ensures
        b == regex_finds(m.source_view(), haystack@),
{
    m.regex.is_match(haystack)
}

/// Compiles `pattern`; `None` when the regex crate rejects it.
pub fn compile(pattern: &str) -> (res: Option<PatternMatcher>)
    ensures
        res is Some <==> regex_accepts(pattern@),
        res matches Some(m) ==> m.source_view() == pattern@,
{
    regex_new(pattern, owned(pattern))
}

impl PatternMatcher {
    /// Whether the pattern matches anywhere in `haystack`.
    pub fn is_match(&self, haystack: &str) -> (b: bool)
        ensures
            b == regex_finds(self.source_view(), haystack@),
    {
        regex_is_match(self, haystack)
    }
}

} // verus!
