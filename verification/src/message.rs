//! The status messages shown in place of content when there is nothing to
//! list.

use vstd::prelude::*;

verus! {

/// What the results pane reports while it has no rows to show.
#[derive(Clone, Copy, PartialEq, Eq, Structural, Debug)]
pub enum Message {
    TrySearch,
    ListingPackages,
    Searching,
    NoResults,
}

impl Message {
    /// The message's display text.
    pub fn as_str(&self) -> (r: &'static str)
        ensures
            r@ == match *self {
                Message::TrySearch => "Try searching for something"@,
                Message::ListingPackages => "Listing packages..."@,
                Message::Searching => "Searching for packages..."@,
                Message::NoResults => "No results, try another query"@,
            },
    {
        match self {
            Message::TrySearch => "Try searching for something",
            Message::ListingPackages => "Listing packages...",
            Message::Searching => "Searching for packages...",
            Message::NoResults => "No results, try another query",
        }
    }
}

} // verus!
