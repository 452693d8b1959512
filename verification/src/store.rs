//! Trusted interface to `compact_strings::FixedCompactStrings`, the
//! memory-compact append-only string store that backs the catalogue. The
//! store's contents are named by [`entries`]; each wrapper states, over that
//! name, what the store's own documentation promises of the call.

use vstd::prelude::*;

verus! {

#[verifier::external_type_specification]
#[verifier::external_body]
pub struct ExFixedCompactStrings(compact_strings::FixedCompactStrings);

/// The strings held by a `FixedCompactStrings`, in order of insertion.
pub uninterp spec fn entries(s: compact_strings::FixedCompactStrings) -> Seq<Seq<char>>;

/// Relies on `FixedCompactStrings::new`: a new store holds no strings.
#[verifier::external_body]
pub(crate) fn store_new() -> (r: compact_strings::FixedCompactStrings)
    ensures
        entries(r) == Seq::<Seq<char>>::empty(),
{
    compact_strings::FixedCompactStrings::new()
}

/// Relies on `FixedCompactStrings::push`: appends one string to the back of
/// the store.
#[verifier::external_body]
pub(crate) fn store_push(s: &mut compact_strings::FixedCompactStrings, name: &str)
    ensures
        entries(*final(s)) == entries(*old(s)).push(name@),
{
    s.push(name)
}

/// Relies on `FixedCompactStrings::len`: the number of strings held.
#[verifier::external_body]
pub(crate) fn store_len(s: &compact_strings::FixedCompactStrings) -> (r: usize)
    ensures
        r == entries(*s).len(),
{
    s.len()
}

/// Relies on `FixedCompactStrings::get`: returns the string at the given
/// position exactly when the position is in bounds. (Stored strings were
/// pushed as `&str`, so re-reading them cannot fail UTF-8 validation.)
#[verifier::external_body]
pub(crate) fn store_get(s: &compact_strings::FixedCompactStrings, i: usize) -> (r: Option<&str>)
    ensures
        match r {
            Some(name) => i < entries(*s).len() && name@ == entries(*s)[i as int],
            None => i >= entries(*s).len(),
        },
{
    s.get(i)
}

} // verus!
