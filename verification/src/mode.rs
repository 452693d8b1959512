//! The two interaction modes: editing the query text, or browsing the
//! results.

use vstd::prelude::*;

verus! {

/// The controller's mode: `Insert` edits the query, `Select` browses and
/// acts on results.
#[derive(Clone, Copy, PartialEq, Eq, Structural, Debug)]
pub enum Mode {
    Insert,
    Select,
}

} // verus!
