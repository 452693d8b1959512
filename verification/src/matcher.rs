//! The query predicates: a plain string matches by substring containment
//! (an empty string matches everything), a compiled pattern by regex search.

use vstd::prelude::*;

use crate::pattern;
use crate::pattern::Pattern;
use crate::text;

verus! {

/// A predicate over candidate strings.
pub trait Matcher {
    /// What the predicate accepts.
    spec fn matches_spec(&self, value: Seq<char>) -> bool;

    /// Tests a candidate.
    fn matches(&self, value: &str) -> (r: bool)
        ensures
            r == self.matches_spec(value@),
    ;
}

impl Matcher for String {
    /// An empty query matches everything; otherwise the candidate must
    /// contain the query as a substring.
    open spec fn matches_spec(&self, value: Seq<char>) -> bool {
        self@.len() == 0 || text::seq_contains(value, self@)
    }

    fn matches(&self, value: &str) -> (r: bool) {
        let s = self.as_str();
        s.unicode_len() == 0 || text::str_contains(value, s)
    }
}

impl Matcher for Pattern {
    /// The candidate holds a match of the compiled pattern.
    open spec fn matches_spec(&self, value: Seq<char>) -> bool {
        pattern::regex_match(self.source_view(), value)
    }

    fn matches(&self, value: &str) -> (r: bool) {
        self.is_match(value)
    }
}

} // verus!
