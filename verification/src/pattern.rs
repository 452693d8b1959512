//! Trusted interface to the `regex` crate. A query pattern is compiled once
//! and then matched against many names. Compilation succeeds exactly on
//! syntactically valid patterns, which is what [`regex_valid`] names; what a
//! match reports for a given pattern text and haystack is what
//! [`regex_match`] names. Both are functions of the texts alone: the crate
//! compiles and matches deterministically.

use vstd::prelude::*;

verus! {

#[verifier::external_type_specification]
#[verifier::external_body]
pub struct ExRegex(regex::Regex);

/// Whether `regex::Regex::new` accepts the pattern text.
pub uninterp spec fn regex_valid(pattern: Seq<char>) -> bool;

/// What `regex::Regex::is_match` reports for a pattern text and a haystack
/// (match-on-substring semantics, not full-match).
pub uninterp spec fn regex_match(pattern: Seq<char>, hay: Seq<char>) -> bool;

/// A compiled query pattern, paired with the text it was compiled from.
///
/// The fields are private and [`Pattern::compile`] is the only constructor,
/// so the compiled regex always derives from `source`.
pub struct Pattern {
    source: String,
    regex: regex::Regex,
}

impl Pattern {
    /// The pattern text this value was compiled from.
    pub closed spec fn source_view(&self) -> Seq<char> {
        self.source@
    }

    /// Relies on `regex::Regex::new`: compiling succeeds exactly on
    /// syntactically valid pattern text, deterministically in that text.
    #[verifier::external_body]
    pub fn compile(pattern: &str) -> (r: Option<Pattern>)
        ensures
            r is Some <==> regex_valid(pattern@),
            r matches Some(p) ==> p.source_view() == pattern@,
    {
        match regex::Regex::new(pattern) {
            Ok(regex) => Some(Pattern { source: pattern.to_owned(), regex }),
            Err(_) => None,
        }
    }

    /// Relies on `regex::Regex::is_match`: whether the regex matches a
    /// substring of `hay`, a function of the pattern text and `hay` alone.
    #[verifier::external_body]
    pub(crate) fn is_match(&self, hay: &str) -> (r: bool)
        ensures
            r == regex_match(self.source_view(), hay@),
    {
        self.regex.is_match(hay)
    }
}

} // verus!
