//! The view projection: a pure function from the filtered subset, the
//! viewport, the cursor and the installed and selection sets to the visible
//! window of styled rows. The window never holds more than `height - 5` rows
//! (the fixed chrome: borders and title take the rest), each row carries a
//! 1-based display index padded to a fixed gutter width, the package name in
//! one of four visual states, and a marker when the position is selected.

use std::collections::HashSet;

use vstd::prelude::*;

use crate::catalogue::Catalogue;
use crate::shown::Shown;
use crate::shown::shown_at_spec;
use crate::shown::shown_len_spec;
use crate::shown::shown_wf;
use crate::text;

verus! {

broadcast use vstd::std_specs::hash::group_hash_axioms;

/// The four visual states of a row's name: {installed, not installed} x
/// {current row, not current row}.
#[derive(Clone, Copy, PartialEq, Eq, Debug, Structural)]
pub enum RowStyle {
    Installed,
    InstalledCurrent,
    Uninstalled,
    UninstalledCurrent,
}

/// One visible row of the result list.
#[derive(PartialEq, Eq, Debug, Clone)]
pub struct Row {
    /// The 1-based display index shown in the left gutter.
    pub index: usize,
    /// How many pad spaces follow the index so the columns line up.
    pub padding: usize,
    /// The package name.
    pub name: String,
    /// The name's visual state.
    pub style: RowStyle,
    /// Whether the row carries the trailing selection marker.
    pub marked: bool,
}

/// The style of a row, from whether its package is installed and whether it
/// is the current row.
pub open spec fn style_for(installed: bool, current: bool) -> RowStyle {
    match (installed, current) {
        (true, true) => RowStyle::InstalledCurrent,
        (true, false) => RowStyle::Installed,
        (false, true) => RowStyle::UninstalledCurrent,
        (false, false) => RowStyle::Uninstalled,
    }
}

/// The number of pad spaces for a display index in a gutter sized by
/// `pad_to`: the index's decimal width is subtracted, but never below zero.
pub open spec fn pad_width(pad_to: int, index: nat) -> int {
    let d = text::digits10(index) as int;
    if d - 1 <= pad_to {
        pad_to - (d - 1)
    } else {
        0
    }
}

/// How many rows are visible: what remains of the shown subset past the
/// scroll offset, capped by the viewport rows left after the fixed chrome.
pub open spec fn visible_count(shown_len: int, height: int, skip: int) -> int {
    let cap = if height >= 5 {
        height - 5
    } else {
        0
    };
    let avail = if shown_len >= skip {
        shown_len - skip
    } else {
        0
    };
    if avail <= cap {
        avail
    } else {
        cap
    }
}

/// What the row at window offset `j` must hold.
pub open spec fn row_ok(
    row: Row,
    cat: Seq<Seq<char>>,
    shown: Shown,
    current: int,
    selected: Set<usize>,
    installed: Set<usize>,
    pad_to: int,
    skip: int,
    j: int,
) -> bool {
    let pos = skip + j;
    let rp = shown_at_spec(shown, pos);
    &&& row.index as int == pos + 1
    &&& row.padding as int == pad_width(pad_to, (pos + 1) as nat)
    &&& row.name@ == cat[rp]
    &&& row.style == style_for(installed.contains(rp as usize), current == pos)
    &&& row.marked == selected.contains(rp as usize)
}

/// What the projection returns: exactly the visible window, row by row.
pub open spec fn render_post(
    r: Seq<Row>,
    cat: Seq<Seq<char>>,
    shown: Shown,
    current: int,
    selected: Set<usize>,
    installed: Set<usize>,
    height: int,
    pad_to: int,
    skip: int,
) -> bool {
    &&& r.len() == visible_count(shown_len_spec(shown, cat.len() as int), height, skip)
    &&& forall|j: int|
        0 <= j < r.len() ==> row_ok(#[trigger] r[j], cat, shown, current, selected, installed,
        pad_to, skip, j)
}

/// Projects the visible window of styled rows: rows `skip` up to at most
/// `skip + (height - 5)` of the shown subset, each with its padded display
/// index, its name styled by installed/current state, and a marker when
/// selected. Emits no row beyond the shown subset, and none at all when the
/// viewport is too small.
pub fn format_results(
    packages: &Catalogue,
    shown: &Shown,
    current: usize,
    selected: &HashSet<usize>,
    height: usize,
    pad_to: usize,
    skip: usize,
    installed: &HashSet<usize>,
) -> (r: Vec<Row>)
    requires
        shown_wf(*shown, packages@.len() as int),
    ensures
        render_post(
            r@,
            packages@,
            *shown,
            current as int,
            selected@,
            installed@,
            height as int,
            pad_to as int,
            skip as int,
        ),
{
    let shown_len: usize = match shown.len() {
        Some(l) => l,
        None => packages.len(),
    };
    let cap: usize = if height >= 5 {
        height - 5
    } else {
        0
    };
    let avail: usize = if shown_len >= skip {
        shown_len - skip
    } else {
        0
    };
    let count: usize = if avail <= cap {
        avail
    } else {
        cap
    };
    let mut rows: Vec<Row> = Vec::new();
    let mut j: usize = 0;
    while j < count
        invariant
            shown_wf(*shown, packages@.len() as int),
            shown_len == shown_len_spec(*shown, packages@.len() as int),
            count == visible_count(shown_len as int, height as int, skip as int),
            count == 0 || skip + count <= shown_len,
            0 <= j <= count,
            rows@.len() == j,
            forall|j2: int|
                0 <= j2 < j ==> row_ok(#[trigger] rows@[j2], packages@, *shown, current as int,
                selected@, installed@, pad_to as int, skip as int, j2),
        decreases count - j,
    {
        let pos: usize = skip + j;
        let realpos: usize = match shown.get(pos) {
            Some(p) => p,
            None => pos,
        };
        let name = packages.get(realpos);
        let idx: usize = pos + 1;
        let d = text::count_digits(idx);
        let padding: usize = if d - 1 <= pad_to {
            pad_to - (d - 1)
        } else {
            0
        };
        let is_installed = installed.contains(&realpos);
        let is_current = current == pos;
        let style = match (is_installed, is_current) {
            (true, true) => RowStyle::InstalledCurrent,
            (true, false) => RowStyle::Installed,
            (false, true) => RowStyle::UninstalledCurrent,
            (false, false) => RowStyle::Uninstalled,
        };
        let marked = selected.contains(&realpos);
        rows.push(Row { index: idx, padding, name: name.to_owned(), style, marked });
        j = j + 1;
    }
    rows
}

/// The projection never yields more rows than the viewport allows: at most
/// `height - 5`, and none when the viewport has five rows or fewer.
pub proof fn lemma_row_count_bound(shown_len: int, height: int, skip: int)
    ensures
        0 <= visible_count(shown_len, height, skip),
        visible_count(shown_len, height, skip) <= if height >= 5 {
            height - 5
        } else {
            0
        },
{
}

/// The projection is a pure function of its inputs: two results that both
/// satisfy [`render_post`] for the same inputs agree row for row.
pub proof fn lemma_render_deterministic(
    r1: Seq<Row>,
    r2: Seq<Row>,
    cat: Seq<Seq<char>>,
    shown: Shown,
    current: int,
    selected: Set<usize>,
    installed: Set<usize>,
    height: int,
    pad_to: int,
    skip: int,
)
    requires
        render_post(r1, cat, shown, current, selected, installed, height, pad_to, skip),
        render_post(r2, cat, shown, current, selected, installed, height, pad_to, skip),
    ensures
        r1.len() == r2.len(),
        forall|j: int|
            0 <= j < r1.len() ==> {
                &&& (#[trigger] r1[j]).index == r2[j].index
                &&& r1[j].padding == r2[j].padding
                &&& r1[j].name@ == r2[j].name@
                &&& r1[j].style == r2[j].style
                &&& r1[j].marked == r2[j].marked
            },
{
    assert forall|j: int| 0 <= j < r1.len() implies {
        &&& (#[trigger] r1[j]).index == r2[j].index
        &&& r1[j].padding == r2[j].padding
        &&& r1[j].name@ == r2[j].name@
        &&& r1[j].style == r2[j].style
        &&& r1[j].marked == r2[j].marked
    } by {
        assert(row_ok(r1[j], cat, shown, current, selected, installed, pad_to, skip, j));
        assert(row_ok(r2[j], cat, shown, current, selected, installed, pad_to, skip, j));
    }
}

} // verus!
