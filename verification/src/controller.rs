//! The interaction state machine: the cursor, mode, query-editing and
//! selection state, and the pure step functions that map an input event to
//! the next state and the action the event loop must carry out (search,
//! install, remove, exit). Every state change that affects what should be
//! visible sets the redraw flag; the render loop draws only when it is set.

use std::collections::HashSet;

use vstd::prelude::*;

use crate::detail::InfoLine;
use crate::message::Message;
use crate::mode::Mode;
use crate::selset::SelSet;
use crate::selset::toggle_spec;
use crate::shown::Shown;
use crate::shown::shown_len_spec;
use crate::shown::shown_wf;
use crate::text;

verus! {

broadcast use vstd::std_specs::hash::group_hash_axioms;

/// A key, already freed of the terminal library's encoding.
#[derive(Clone, Copy, PartialEq, Eq, Structural, Debug)]
pub enum Key {
    Char(char),
    Up,
    Down,
    Left,
    Right,
    PageUp,
    PageDown,
    Home,
    End,
    Enter,
    Esc,
    Backspace,
    Other,
}

/// A key press with its control-modifier state.
#[derive(Clone, Copy, PartialEq, Eq, Structural, Debug)]
pub struct KeyEvent {
    pub code: Key,
    pub ctrl: bool,
}

/// A mouse event kind the controller reacts to.
#[derive(Clone, Copy, PartialEq, Eq, Structural, Debug)]
pub enum MouseKind {
    ScrollUp,
    ScrollDown,
    LeftDown,
    RightDown,
    Other,
}

/// A mouse event at a terminal cell.
#[derive(Clone, Copy, PartialEq, Eq, Structural, Debug)]
pub struct MouseEvent {
    pub kind: MouseKind,
    pub row: u16,
    pub col: u16,
}

/// A discrete input event.
#[derive(PartialEq, Eq, Debug)]
pub enum Event {
    Key(KeyEvent),
    Mouse(MouseEvent),
    Paste(Vec<char>),
    Resize,
}

/// What the event loop must do after a step.
#[derive(PartialEq, Eq, Debug)]
pub enum Action {
    /// Nothing beyond the state change.
    Nothing,
    /// Leave the interactive loop.
    Exit,
    /// Run the (asynchronous) search for the current query, superseding any
    /// search in flight.
    Search,
    /// Leave the loop and install the packages at these catalogue positions.
    Install(Vec<usize>),
    /// Leave the loop and remove the packages at these catalogue positions.
    Remove(Vec<usize>),
}

/// The session data a step reads but does not own: the current filter
/// result, the catalogue size, the installed set and the viewport.
pub struct Ctx<'a> {
    pub shown: &'a Shown,
    /// The catalogue length, or zero while the catalogue is still being
    /// built.
    pub cat_len: usize,
    /// Whether the catalogue build has completed.
    pub catalogue_ready: bool,
    pub installed: &'a HashSet<usize>,
    pub width: u16,
    pub height: u16,
}

impl Ctx<'_> {
    /// The number of rows the shown subset presents.
    pub open spec fn count_spec(&self) -> int {
        shown_len_spec(*self.shown, self.cat_len as int)
    }

    /// The rows of one result page.
    pub open spec fn per_page_spec(&self) -> int {
        self.height - 5
    }

    /// What the event loop guarantees of the context: the filter result is
    /// valid for the catalogue, no length is reported before the catalogue
    /// exists, and the viewport is large enough to draw in.
    pub open spec fn wf(&self) -> bool {
        &&& shown_wf(*self.shown, self.cat_len as int)
        &&& !self.catalogue_ready ==> self.cat_len == 0
        &&& self.height >= 10
        &&& self.width >= 10
    }

    /// The shown row count.
    pub fn count(&self) -> (r: usize)
        requires
            self.wf(),
        ensures
            r == self.count_spec(),
    {
        match self.shown.len() {
            Some(l) => l,
            None => self.cat_len,
        }
    }

    /// The rows of one result page.
    pub fn per_page(&self) -> (r: usize)
        requires
            self.wf(),
        ensures
            r == self.per_page_spec(),
            r >= 5,
    {
        (self.height - 5) as usize
    }
}

/// The catalogue position behind shown-position `i`: the explicit list's
/// entry when there is one, `i` itself under `All` (or past the list's
/// end).
pub open spec fn real_at(shown: Shown, i: int) -> int {
    match shown {
        Shown::All => i,
        Shown::Few(v) => if 0 <= i < v@.len() {
            v@[i] as int
        } else {
            i
        },
    }
}

/// The catalogue position behind shown-position `i`.
pub fn real_index(shown: &Shown, i: usize) -> (r: usize)
    ensures
        r as int == real_at(*shown, i as int),
{
    match shown.get(i) {
        Some(p) => p,
        None => i,
    }
}

/// A word-boundary character for word-wise caret movement.
pub open spec fn is_word_boundary(c: char) -> bool {
    c == ' ' || c == '-' || c == '_'
}

/// Executable test for [`is_word_boundary`].
pub fn word_boundary_char(c: char) -> (r: bool)
    ensures
        r == is_word_boundary(c),
{
    c == ' ' || c == '-' || c == '_'
}

/// The greatest index below `k` holding a word boundary, or `-1`.
pub open spec fn rpos_boundary(q: Seq<char>, k: int) -> int
    decreases k,
{
    if k <= 0 {
        -1
    } else if is_word_boundary(q[k - 1]) {
        k - 1
    } else {
        rpos_boundary(q, k - 1)
    }
}

/// Where the caret lands on a word-wise jump left from `pos`: one past the
/// last word boundary strictly before `pos - 1`, or the start.
pub open spec fn last_word_end_spec(q: Seq<char>, pos: int) -> int {
    let k = if pos == 0 {
        0
    } else {
        pos - 1
    };
    rpos_boundary(q, k) + 1
}

/// The caret target of a word-wise jump left from `pos`.
pub fn last_word_end(q: &Vec<char>, pos: usize) -> (r: usize)
    requires
        pos <= q@.len(),
    ensures
        r == last_word_end_spec(q@, pos as int),
        r <= pos,
{
    if pos == 0 {
        return 0;
    }
    let mut k: usize = pos - 1;
    while k > 0
        invariant
            pos <= q@.len(),
            0 <= k <= pos - 1,
            rpos_boundary(q@, pos - 1) == rpos_boundary(q@, k as int),
        decreases k,
    {
        if word_boundary_char(q[k - 1]) {
            return k;
        }
        k = k - 1;
    }
    0
}

/// The least index at or past `k` holding a word boundary, or the length.
pub open spec fn fpos_boundary(q: Seq<char>, k: int) -> int
    decreases q.len() - k,
{
    if k < 0 || k >= q.len() {
        q.len() as int
    } else if is_word_boundary(q[k]) {
        k
    } else {
        fpos_boundary(q, k + 1)
    }
}

/// Where the caret lands on a word-wise jump right from `pos`: one past the
/// first word boundary at or after `pos`, or the end.
pub open spec fn next_word_start_spec(q: Seq<char>, pos: int) -> int {
    let b = fpos_boundary(q, pos);
    if b < q.len() {
        b + 1
    } else {
        q.len() as int
    }
}

/// The caret target of a word-wise jump right from `pos`.
pub fn next_word_start(q: &Vec<char>, pos: usize) -> (r: usize)
    requires
        pos <= q@.len(),
    ensures
        r == next_word_start_spec(q@, pos as int),
        pos <= r <= q@.len(),
{
    let n = q.len();
    let mut k: usize = pos;
    while k < n
        invariant
            n == q@.len(),
            pos <= k <= n,
            fpos_boundary(q@, pos as int) == fpos_boundary(q@, k as int),
        decreases n - k,
    {
        if word_boundary_char(q[k]) {
            return k + 1;
        }
        k = k + 1;
    }
    n
}

/// Whether a terminal cell lies inside the result-list pane.
pub open spec fn within_list_spec(width: int, height: int, row: int, col: int) -> bool {
    let right = if width / 2 >= 1 {
        width / 2 - 1
    } else {
        0
    };
    let bottom = if height >= 1 {
        height - 1
    } else {
        0
    };
    col >= 1 && col < right && row >= 4 && row < bottom
}

/// Whether a terminal cell lies inside the result-list pane.
pub fn within_list(width: u16, height: u16, row: u16, col: u16) -> (r: bool)
    ensures
        r == within_list_spec(width as int, height as int, row as int, col as int),
{
    let half = width / 2;
    let right: u16 = if half >= 1 {
        half - 1
    } else {
        0
    };
    let bottom: u16 = if height >= 1 {
        height - 1
    } else {
        0
    };
    col >= 1 && col < right && row >= 4 && row < bottom
}

/// Whether a terminal cell lies inside the detail pane.
pub open spec fn within_info_spec(width: int, height: int, row: int, col: int) -> bool {
    let right = if width >= 3 {
        width - 3
    } else {
        0
    };
    let bottom = if height >= 2 {
        height - 2
    } else {
        0
    };
    col > width / 2 && col < right && row >= 5 && row < bottom
}

/// Whether a terminal cell lies inside the detail pane.
pub fn within_info(width: u16, height: u16, row: u16, col: u16) -> (r: bool)
    ensures
        r == within_info_spec(width as int, height as int, row as int, col as int),
{
    let right: u16 = if width >= 3 {
        width - 3
    } else {
        0
    };
    let bottom: u16 = if height >= 2 {
        height - 2
    } else {
        0
    };
    col > width / 2 && col < right && row >= 5 && row < bottom
}

/// One step up the result list, wrapping from the first row to the last.
pub open spec fn move_up_spec(cur: int, n: int) -> int {
    if cur > 0 {
        cur - 1
    } else {
        n - 1
    }
}

/// One step up the result list, with wraparound.
pub fn move_up(cur: usize, n: usize) -> (r: usize)
    requires
        n >= 1,
        cur < n,
    ensures
        r == move_up_spec(cur as int, n as int),
        r < n,
{
    if cur > 0 {
        cur - 1
    } else {
        n - 1
    }
}

/// One step down the result list, wrapping from the last row to the first.
pub open spec fn move_down_spec(cur: int, n: int) -> int {
    if cur + 1 < n {
        cur + 1
    } else {
        0
    }
}

/// One step down the result list, with wraparound.
pub fn move_down(cur: usize, n: usize) -> (r: usize)
    requires
        n >= 1,
        cur < n,
    ensures
        r == move_down_spec(cur as int, n as int),
        r < n,
{
    if cur + 1 < n {
        cur + 1
    } else {
        0
    }
}

/// One page back: a full page up when one fits, else to the start of the
/// last page when the cursor sits on a page boundary, else to the start of
/// its page. No move when everything fits on one page.
pub open spec fn page_back_spec(cur: int, n: int, per: int) -> int {
    if n - 1 > per {
        if cur >= per {
            cur - per
        } else if cur % per == 0 {
            (n - 1) / per * per
        } else {
            cur / per * per
        }
    } else {
        cur
    }
}

/// One page back, with wraparound to the last page.
pub fn page_back(cur: usize, n: usize, per: usize) -> (r: usize)
    requires
        per >= 1,
        n >= 1,
        cur < n,
    ensures
        r == page_back_spec(cur as int, n as int, per as int),
        r < n,
{
    if n - 1 > per {
        if cur >= per {
            cur - per
        } else if cur % per == 0 {
            proof {
                lemma_div_mul_le(n - 1, per as int);
            }
            (n - 1) / per * per
        } else {
            proof {
                lemma_div_mul_le(cur as int, per as int);
            }
            cur / per * per
        }
    } else {
        cur
    }
}

/// One page forward: to the first row when the cursor is on the last, to
/// the last row when less than a page remains, else a full page down. No
/// move when everything fits on one page.
pub open spec fn page_forward_spec(cur: int, n: int, per: int) -> int {
    if n > per {
        if cur == n - 1 {
            0
        } else if cur + per > n - 1 {
            n - 1
        } else {
            cur + per
        }
    } else {
        cur
    }
}

/// One page forward, with wraparound past the last row.
pub fn page_forward(cur: usize, n: usize, per: usize) -> (r: usize)
    requires
        per >= 1,
        n >= 1,
        cur < n,
    ensures
        r == page_forward_spec(cur as int, n as int, per as int),
        r < n,
{
    if n > per {
        if cur == n - 1 {
            0
        } else if per > n - 1 - cur {
            n - 1
        } else {
            cur + per
        }
    } else {
        cur
    }
}

/// Multiplying back a flooring division does not grow the number.
proof fn lemma_div_mul_le(a: int, b: int)
    requires
        a >= 0,
        b >= 1,
    ensures
        a / b * b <= a,
        a / b * b >= 0,
{
    assert(a / b * b <= a && a / b * b >= 0) by (nonlinear_arith)
        requires
            a >= 0 && b >= 1,
    ;
}


/// The UI state the controller owns: mode, cursor, caret, query text,
/// selection, the single-slot detail cache and its scroll, the status
/// message, and the redraw flag.
pub struct UiState {
    pub mode: Mode,
    /// The cursor's position within the shown subset.
    pub current: usize,
    /// The caret's offset within the query text.
    pub insert_pos: usize,
    /// The vertical scroll offset into the detail text.
    pub info_scroll: usize,
    /// The query text.
    pub query: Vec<char>,
    /// The positions marked for a batch action.
    pub selected: SelSet,
    /// The detail cache: the parsed info lines for the current row, or
    /// empty while none are known. Cleared whenever `current` changes.
    pub info: Vec<InfoLine>,
    /// What to show in place of content when there are no rows.
    pub message: Message,
    /// Whether the next loop turn must redraw.
    pub redraw: bool,
}

impl UiState {
    /// The state invariant against a shown row count: the selection list is
    /// ordered, the caret is inside the query, and the cursor is inside the
    /// shown subset (position zero when it is empty).
    pub open spec fn wf(&self, n: int) -> bool {
        &&& self.selected.wf()
        &&& self.insert_pos <= self.query@.len()
        &&& n == 0 ==> self.current == 0
        &&& n > 0 ==> (self.current as int) < n
    }

    /// The state a session starts in: editing the given query, caret at its
    /// end, nothing selected, nothing cached, and one initial draw owed.
    pub fn new(query: Vec<char>) -> (r: UiState)
        ensures
            r.mode == Mode::Insert,
            r.current == 0,
            r.insert_pos == query@.len(),
            r.info_scroll == 0,
            r.query@ == query@,
            r.selected@ == Set::<usize>::empty(),
            r.info@ == Seq::<InfoLine>::empty(),
            r.message == Message::TrySearch,
            r.redraw == true,
            r.wf(0),
    {
        let insert_pos = query.len();
        UiState {
            mode: Mode::Insert,
            current: 0,
            insert_pos,
            info_scroll: 0,
            query,
            selected: SelSet::new(),
            info: Vec::new(),
            message: Message::TrySearch,
            redraw: true,
        }
    }
}

/// Marks the start of an asynchronous search: the status message says what
/// is happening, and a redraw is owed.
pub fn note_search_started(st: &mut UiState)
    ensures
        *final(st) == (UiState { message: final(st).message, redraw: true, ..*old(st) }),
        final(st).message == (if old(st).query@.len() == 0 {
            Message::ListingPackages
        } else {
            Message::Searching
        }),
{
    if st.query.len() == 0 {
        st.message = Message::ListingPackages;
    } else {
        st.message = Message::Searching;
    }
    st.redraw = true;
}

/// Applies a completed search: the cursor returns to the first row, the
/// detail cache is invalidated, the mode switches to browsing when the
/// search found anything and the status message reports when it did not,
/// and a redraw is owed.
pub fn finish_search(st: &mut UiState, shown_count: usize)
    requires
        old(st).selected.wf(),
        old(st).insert_pos <= old(st).query@.len(),
    ensures
        *final(st) == (UiState {
            current: 0,
            info: final(st).info,
            mode: final(st).mode,
            message: final(st).message,
            redraw: true,
            ..*old(st)
        }),
        final(st).info@ == Seq::<InfoLine>::empty(),
        final(st).mode == (if shown_count > 0 {
            Mode::Select
        } else {
            old(st).mode
        }),
        final(st).message == (if shown_count > 0 {
            old(st).message
        } else {
            Message::NoResults
        }),
        final(st).wf(shown_count as int),
{
    st.current = 0;
    st.info = Vec::new();
    if shown_count > 0 {
        st.mode = Mode::Select;
    } else {
        st.message = Message::NoResults;
    }
    st.redraw = true;
}

/// What a key handled in `Insert` mode does.
pub open spec fn insert_post(
    pre: UiState,
    post: UiState,
    k: KeyEvent,
    n: int,
    ready: bool,
    r: Action,
) -> bool {
    match k.code {
        Key::Esc => if n > 0 {
            &&& post == (UiState { mode: Mode::Select, current: 0, redraw: true, ..pre })
            &&& r is Nothing
        } else {
            post == pre && r is Nothing
        },
        Key::Left => {
            &&& post == (UiState { insert_pos: post.insert_pos, redraw: true, ..pre })
            &&& post.insert_pos as int == (if k.ctrl {
                last_word_end_spec(pre.query@, pre.insert_pos as int)
            } else if pre.insert_pos > 0 {
                pre.insert_pos - 1
            } else {
                pre.query@.len() as int
            })
            &&& r is Nothing
        },
        Key::Right => {
            &&& post == (UiState { insert_pos: post.insert_pos, redraw: true, ..pre })
            &&& post.insert_pos as int == (if k.ctrl {
                next_word_start_spec(pre.query@, pre.insert_pos as int)
            } else if (pre.insert_pos as int) < pre.query@.len() {
                pre.insert_pos + 1
            } else {
                0
            })
            &&& r is Nothing
        },
        Key::Up | Key::Home => {
            &&& post == (UiState { insert_pos: 0, redraw: true, ..pre })
            &&& r is Nothing
        },
        Key::Down | Key::End => {
            &&& post == (UiState { insert_pos: post.insert_pos, redraw: true, ..pre })
            &&& post.insert_pos == pre.query@.len()
            &&& r is Nothing
        },
        Key::Backspace => if pre.insert_pos != 0 {
            &&& post == (UiState {
                query: post.query,
                insert_pos: (pre.insert_pos - 1) as usize,
                redraw: true,
                ..pre
            })
            &&& post.query@ == pre.query@.remove(pre.insert_pos - 1)
            &&& r is Nothing
        } else {
            post == pre && r is Nothing
        },
        Key::Char(c) => if k.ctrl && c == 'c' {
            post == pre && r is Exit
        } else if k.ctrl && c == 'w' {
            let b = last_word_end_spec(pre.query@, pre.insert_pos as int);
            &&& post == (UiState {
                query: post.query,
                insert_pos: post.insert_pos,
                redraw: true,
                ..pre
            })
            &&& post.query@ == pre.query@.take(b) + pre.query@.skip(pre.insert_pos as int)
            &&& post.insert_pos as int == b
            &&& r is Nothing
        } else {
            &&& post == (UiState {
                query: post.query,
                insert_pos: (pre.insert_pos + 1) as usize,
                redraw: true,
                ..pre
            })
            &&& post.query@ == pre.query@.insert(pre.insert_pos as int, c)
            &&& r is Nothing
        },
        Key::Enter => if !ready {
            post == pre && r is Nothing
        } else if pre.query@.len() > 1 {
            post == pre && r is Search
        } else {
            &&& post == (UiState { message: Message::TrySearch, redraw: true, ..pre })
            &&& r is Nothing
        },
        _ => post == (UiState { redraw: true, ..pre }) && r is Nothing,
    }
}

/// Handles a key in `Insert` mode: query editing, caret movement, and
/// search submission. Submitting needs the catalogue and more than one
/// character of query; a shorter query only sets the status message.
pub fn handle_key_insert(st: &mut UiState, k: KeyEvent, ctx: &Ctx) -> (r: Action)
    requires
        ctx.wf(),
        old(st).wf(ctx.count_spec()),
    ensures
        final(st).wf(ctx.count_spec()),
        insert_post(*old(st), *final(st), k, ctx.count_spec(), ctx.catalogue_ready, r),
{
    let n = ctx.count();
    match k.code {
        Key::Esc => {
            if n > 0 {
                st.current = 0;
                st.mode = Mode::Select;
                st.redraw = true;
            }
            Action::Nothing
        },
        Key::Left => {
            if k.ctrl {
                st.insert_pos = last_word_end(&st.query, st.insert_pos);
            } else if st.insert_pos > 0 {
                st.insert_pos = st.insert_pos - 1;
            } else {
                st.insert_pos = st.query.len();
            }
            st.redraw = true;
            Action::Nothing
        },
        Key::Right => {
            if k.ctrl {
                st.insert_pos = next_word_start(&st.query, st.insert_pos);
            } else if st.insert_pos < st.query.len() {
                st.insert_pos = st.insert_pos + 1;
            } else {
                st.insert_pos = 0;
            }
            st.redraw = true;
            Action::Nothing
        },
        Key::Up | Key::Home => {
            st.insert_pos = 0;
            st.redraw = true;
            Action::Nothing
        },
        Key::Down | Key::End => {
            st.insert_pos = st.query.len();
            st.redraw = true;
            Action::Nothing
        },
        Key::Backspace => {
            if st.insert_pos != 0 {
                st.query.remove(st.insert_pos - 1);
                st.insert_pos = st.insert_pos - 1;
                st.redraw = true;
            }
            Action::Nothing
        },
        Key::Char(c) => {
            if k.ctrl && c == 'c' {
                Action::Exit
            } else if k.ctrl && c == 'w' {
                let b = last_word_end(&st.query, st.insert_pos);
                let empty: Vec<char> = Vec::new();
                let nq = splice_chars(&st.query, b, st.insert_pos, &empty);
                proof {
                    assert(nq@ =~= st.query@.take(b as int) + st.query@.skip(
                        st.insert_pos as int,
                    ));
                }
                st.query = nq;
                st.insert_pos = b;
                st.redraw = true;
                Action::Nothing
            } else {
                st.query.insert(st.insert_pos, c);
                proof {
                    vstd::std_specs::vec::axiom_spec_len(&st.query);
                }
                st.insert_pos = st.insert_pos + 1;
                st.redraw = true;
                Action::Nothing
            }
        },
        Key::Enter => {
            if !ctx.catalogue_ready {
                Action::Nothing
            } else if st.query.len() > 1 {
                Action::Search
            } else {
                st.message = Message::TrySearch;
                st.redraw = true;
                Action::Nothing
            }
        },
        _ => {
            st.redraw = true;
            Action::Nothing
        },
    }
}

/// The positions of `s` whose package is installed, in the same order.
pub open spec fn keep_installed(s: Seq<usize>, installed: Set<usize>) -> Seq<usize>
    decreases s.len(),
{
    if s.len() == 0 {
        Seq::empty()
    } else {
        keep_installed(s.drop_last(), installed) + (if installed.contains(s.last()) {
            seq![s.last()]
        } else {
            Seq::empty()
        })
    }
}

/// What an install action targets: the whole selection when there is one,
/// else the current row alone (and nothing at all with no rows).
pub open spec fn install_targets_spec(sel: SelSet, realp: usize, n: int) -> Seq<usize> {
    if sel.seq_view().len() == 0 {
        if n > 0 {
            seq![realp]
        } else {
            Seq::empty()
        }
    } else {
        sel.seq_view()
    }
}

/// What a remove action targets: the installed members of the selection
/// when there is one, else the current row if it is installed.
pub open spec fn remove_targets_spec(sel: SelSet, installed: Set<usize>, realp: usize, n: int)
    -> Seq<usize> {
    if sel.seq_view().len() == 0 {
        if n > 0 && installed.contains(realp) {
            seq![realp]
        } else {
            Seq::empty()
        }
    } else {
        keep_installed(sel.seq_view(), installed)
    }
}

fn install_targets(st: &UiState, ctx: &Ctx) -> (r: Vec<usize>)
    requires
        ctx.wf(),
        st.wf(ctx.count_spec()),
    ensures
        r@ == install_targets_spec(
            st.selected,
            real_at(*ctx.shown, st.current as int) as usize,
            ctx.count_spec(),
        ),
{
    let n = ctx.count();
    let m = st.selected.len();
    if m == 0 {
        let mut out: Vec<usize> = Vec::new();
        if n > 0 {
            out.push(real_index(ctx.shown, st.current));
        }
        proof {
            if n > 0 {
                assert(out@ =~= seq![real_at(*ctx.shown, st.current as int) as usize]);
            } else {
                assert(out@ =~= Seq::<usize>::empty());
            }
        }
        out
    } else {
        let mut out: Vec<usize> = Vec::new();
        let mut i: usize = 0;
        while i < m
            invariant
                m == st.selected.seq_view().len(),
                0 <= i <= m,
                out@ == st.selected.seq_view().take(i as int),
            decreases m - i,
        {
            out.push(st.selected.at(i));
            proof {
                assert(st.selected.seq_view().take(i as int).push(
                    st.selected.seq_view()[i as int],
                ) =~= st.selected.seq_view().take(i + 1));
            }
            i = i + 1;
        }
        proof {
            assert(st.selected.seq_view().take(m as int) =~= st.selected.seq_view());
        }
        out
    }
}

fn remove_targets(st: &UiState, ctx: &Ctx) -> (r: Vec<usize>)
    requires
        ctx.wf(),
        st.wf(ctx.count_spec()),
    ensures
        r@ == remove_targets_spec(
            st.selected,
            ctx.installed@,
            real_at(*ctx.shown, st.current as int) as usize,
            ctx.count_spec(),
        ),
{
    let n = ctx.count();
    let m = st.selected.len();
    if m == 0 {
        let mut out: Vec<usize> = Vec::new();
        if n > 0 {
            let realp = real_index(ctx.shown, st.current);
            if ctx.installed.contains(&realp) {
                out.push(realp);
            }
        }
        proof {
            let realp = real_at(*ctx.shown, st.current as int) as usize;
            if n > 0 && ctx.installed@.contains(realp) {
                assert(out@ =~= seq![realp]);
            } else {
                assert(out@ =~= Seq::<usize>::empty());
            }
        }
        out
    } else {
        let mut out: Vec<usize> = Vec::new();
        let mut i: usize = 0;
        while i < m
            invariant
                m == st.selected.seq_view().len(),
                0 <= i <= m,
                out@ == keep_installed(st.selected.seq_view().take(i as int), ctx.installed@),
            decreases m - i,
        {
            let p = st.selected.at(i);
            proof {
                let pre = st.selected.seq_view().take(i as int);
                let post = st.selected.seq_view().take(i + 1);
                assert(post.drop_last() =~= pre);
                assert(post.last() == st.selected.seq_view()[i as int]);
            }
            if ctx.installed.contains(&p) {
                out.push(p);
                proof {
                    assert(out@ =~= keep_installed(
                        st.selected.seq_view().take(i as int),
                        ctx.installed@,
                    ) + seq![st.selected.seq_view()[i as int]]);
                }
            } else {
                proof {
                    assert(out@ =~= keep_installed(
                        st.selected.seq_view().take(i as int),
                        ctx.installed@,
                    ) + Seq::<usize>::empty());
                }
            }
            i = i + 1;
        }
        proof {
            assert(st.selected.seq_view().take(m as int) =~= st.selected.seq_view());
        }
        out
    }
}

/// What a key handled in `Select` mode does.
pub open spec fn select_post(
    pre: UiState,
    post: UiState,
    k: KeyEvent,
    shown: Shown,
    n: int,
    per: int,
    installed: Set<usize>,
    r: Action,
) -> bool {
    let realp = real_at(shown, pre.current as int) as usize;
    match k.code {
        Key::Up => select_up_post(pre, post, k, n, r),
        Key::Down => select_down_post(pre, post, k, n, r),
        Key::Esc => {
            &&& post == (UiState {
                mode: Mode::Insert,
                insert_pos: post.insert_pos,
                redraw: true,
                ..pre
            })
            &&& post.insert_pos == pre.query@.len()
            &&& r is Nothing
        },
        Key::Left | Key::PageUp => select_page_back_post(pre, post, n, per, r),
        Key::Right | Key::PageDown => select_page_forward_post(pre, post, n, per, r),
        Key::Home => if n > 0 && pre.current != 0 {
            select_jump_post(pre, post, 0, r)
        } else {
            post == (UiState { redraw: true, ..pre }) && r is Nothing
        },
        Key::End => if n > 0 && pre.current as int != n - 1 {
            select_jump_post(pre, post, n - 1, r)
        } else {
            post == (UiState { redraw: true, ..pre }) && r is Nothing
        },
        Key::Enter => {
            &&& post == pre
            &&& ({
                let ts = install_targets_spec(pre.selected, realp, n);
                if ts.len() == 0 {
                    r is Nothing
                } else {
                    r matches Action::Install(v) && v@ == ts
                }
            })
        },
        Key::Char(c) => if c == 'k' {
            select_up_post(pre, post, k, n, r)
        } else if c == 'j' {
            select_down_post(pre, post, k, n, r)
        } else if c == 'h' {
            select_page_back_post(pre, post, n, per, r)
        } else if c == 'l' {
            select_page_forward_post(pre, post, n, per, r)
        } else if c == 'g' {
            if n > 0 && pre.current != 0 {
                select_jump_post(pre, post, 0, r)
            } else {
                post == (UiState { redraw: true, ..pre }) && r is Nothing
            }
        } else if c == 'G' {
            if n > 0 && pre.current as int != n - 1 {
                select_jump_post(pre, post, n - 1, r)
            } else {
                post == (UiState { redraw: true, ..pre }) && r is Nothing
            }
        } else if c == ' ' {
            if n > 0 {
                &&& post == (UiState { selected: post.selected, redraw: true, ..pre })
                &&& post.selected@ == toggle_spec(pre.selected@, realp)
                &&& post.selected.wf()
                &&& r is Nothing
            } else {
                post == (UiState { redraw: true, ..pre }) && r is Nothing
            }
        } else if c == 'i' || c == '/' {
            &&& post == (UiState {
                mode: Mode::Insert,
                insert_pos: post.insert_pos,
                redraw: true,
                ..pre
            })
            &&& post.insert_pos == pre.query@.len()
            &&& r is Nothing
        } else if c == 'q' || (k.ctrl && c == 'c') {
            post == pre && r is Exit
        } else if c == 'R' {
            &&& post == pre
            &&& ({
                let ts = remove_targets_spec(pre.selected, installed, realp, n);
                if ts.len() == 0 {
                    r is Nothing
                } else {
                    r matches Action::Remove(v) && v@ == ts
                }
            })
        } else {
            post == (UiState { redraw: true, ..pre }) && r is Nothing
        },
        _ => post == (UiState { redraw: true, ..pre }) && r is Nothing,
    }
}

/// Cursor up (or detail scroll up under control).
pub open spec fn select_up_post(pre: UiState, post: UiState, k: KeyEvent, n: int, r: Action)
    -> bool {
    if k.ctrl {
        &&& (if pre.info_scroll > 0 {
            post == (UiState { info_scroll: (pre.info_scroll - 1) as usize, redraw: true, ..pre })
        } else {
            post == pre
        })
        &&& r is Nothing
    } else if n > 0 {
        &&& post == (UiState { current: post.current, info: post.info, redraw: true, ..pre })
        &&& post.current as int == move_up_spec(pre.current as int, n)
        &&& post.info@ == Seq::<InfoLine>::empty()
        &&& r is Nothing
    } else {
        post == pre && r is Nothing
    }
}

/// Cursor down (or detail scroll down under control).
pub open spec fn select_down_post(pre: UiState, post: UiState, k: KeyEvent, n: int, r: Action)
    -> bool {
    if k.ctrl {
        &&& (if pre.info@.len() > 0 && pre.info_scroll < usize::MAX {
            post == (UiState { info_scroll: (pre.info_scroll + 1) as usize, redraw: true, ..pre })
        } else {
            post == pre
        })
        &&& r is Nothing
    } else if n > 0 {
        &&& post == (UiState { current: post.current, info: post.info, redraw: true, ..pre })
        &&& post.current as int == move_down_spec(pre.current as int, n)
        &&& post.info@ == Seq::<InfoLine>::empty()
        &&& r is Nothing
    } else {
        post == pre && r is Nothing
    }
}

/// One page back, when more than a page of results exists.
pub open spec fn select_page_back_post(pre: UiState, post: UiState, n: int, per: int, r: Action)
    -> bool {
    if n > 0 && n - 1 > per {
        &&& post == (UiState { current: post.current, info: post.info, redraw: true, ..pre })
        &&& post.current as int == page_back_spec(pre.current as int, n, per)
        &&& post.info@ == Seq::<InfoLine>::empty()
        &&& r is Nothing
    } else {
        post == pre && r is Nothing
    }
}

/// One page forward, when more than a page of results exists.
pub open spec fn select_page_forward_post(
    pre: UiState,
    post: UiState,
    n: int,
    per: int,
    r: Action,
) -> bool {
    if n > 0 && n > per {
        &&& post == (UiState { current: post.current, info: post.info, redraw: true, ..pre })
        &&& post.current as int == page_forward_spec(pre.current as int, n, per)
        &&& post.info@ == Seq::<InfoLine>::empty()
        &&& r is Nothing
    } else {
        post == pre && r is Nothing
    }
}

/// A jump of the cursor to a fixed row, invalidating the detail cache.
pub open spec fn select_jump_post(pre: UiState, post: UiState, target: int, r: Action) -> bool {
    &&& post == (UiState { current: post.current, info: post.info, redraw: true, ..pre })
    &&& post.current as int == target
    &&& post.info@ == Seq::<InfoLine>::empty()
    &&& r is Nothing
}

/// Handles a key in `Select` mode: cursor movement with wraparound, paging,
/// selection toggling, mode switches, and the terminal install, remove and
/// exit actions.
pub fn handle_key_select(st: &mut UiState, k: KeyEvent, ctx: &Ctx) -> (r: Action)
    requires
        ctx.wf(),
        old(st).wf(ctx.count_spec()),
    ensures
        final(st).wf(ctx.count_spec()),
        select_post(
            *old(st),
            *final(st),
            k,
            *ctx.shown,
            ctx.count_spec(),
            ctx.per_page_spec(),
            ctx.installed@,
            r,
        ),
{
    let n = ctx.count();
    let per = ctx.per_page();
    match k.code {
        Key::Up => key_select_up(st, k, n),
        Key::Down => key_select_down(st, k, n),
        Key::Esc => {
            st.insert_pos = st.query.len();
            st.mode = Mode::Insert;
            st.redraw = true;
            Action::Nothing
        },
        Key::Left | Key::PageUp => key_select_page_back(st, n, per),
        Key::Right | Key::PageDown => key_select_page_forward(st, n, per),
        Key::Home => {
            if n > 0 && st.current != 0 {
                st.current = 0;
                st.info = Vec::new();
                st.redraw = true;
            } else {
                st.redraw = true;
            }
            Action::Nothing
        },
        Key::End => {
            if n > 0 && st.current != n - 1 {
                st.current = n - 1;
                st.info = Vec::new();
                st.redraw = true;
            } else {
                st.redraw = true;
            }
            Action::Nothing
        },
        Key::Enter => {
            let v = install_targets(st, ctx);
            if v.len() == 0 {
                Action::Nothing
            } else {
                Action::Install(v)
            }
        },
        Key::Char(c) => {
            if c == 'k' {
                key_select_up(st, k, n)
            } else if c == 'j' {
                key_select_down(st, k, n)
            } else if c == 'h' {
                key_select_page_back(st, n, per)
            } else if c == 'l' {
                key_select_page_forward(st, n, per)
            } else if c == 'g' {
                if n > 0 && st.current != 0 {
                    st.current = 0;
                    st.info = Vec::new();
                }
                st.redraw = true;
                Action::Nothing
            } else if c == 'G' {
                if n > 0 && st.current != n - 1 {
                    st.current = n - 1;
                    st.info = Vec::new();
                }
                st.redraw = true;
                Action::Nothing
            } else if c == ' ' {
                if n > 0 {
                    let realp = real_index(ctx.shown, st.current);
                    st.selected.toggle(realp);
                }
                st.redraw = true;
                Action::Nothing
            } else if c == 'i' || c == '/' {
                st.insert_pos = st.query.len();
                st.mode = Mode::Insert;
                st.redraw = true;
                Action::Nothing
            } else if c == 'q' || (k.ctrl && c == 'c') {
                Action::Exit
            } else if c == 'R' {
                let v = remove_targets(st, ctx);
                if v.len() == 0 {
                    Action::Nothing
                } else {
                    Action::Remove(v)
                }
            } else {
                st.redraw = true;
                Action::Nothing
            }
        },
        _ => {
            st.redraw = true;
            Action::Nothing
        },
    }
}

fn key_select_up(st: &mut UiState, k: KeyEvent, n: usize)
    -> (r: Action)
    requires
        n as int == 0 ==> old(st).current == 0,
        n as int > 0 ==> (old(st).current as int) < n as int,
    ensures
        select_up_post(*old(st), *final(st), k, n as int, r),
        final(st).current == old(st).current || (n > 0 && (final(st).current as int) < n as int),
        final(st).selected == old(st).selected,
        final(st).insert_pos == old(st).insert_pos,
        final(st).query == old(st).query,
{
    if k.ctrl {
        if st.info_scroll > 0 {
            st.info_scroll = st.info_scroll - 1;
            st.redraw = true;
        }
    } else if n > 0 {
        st.current = move_up(st.current, n);
        st.info = Vec::new();
        st.redraw = true;
    }
    Action::Nothing
}

fn key_select_down(st: &mut UiState, k: KeyEvent, n: usize)
    -> (r: Action)
    requires
        n as int == 0 ==> old(st).current == 0,
        n as int > 0 ==> (old(st).current as int) < n as int,
    ensures
        select_down_post(*old(st), *final(st), k, n as int, r),
        final(st).current == old(st).current || (n > 0 && (final(st).current as int) < n as int),
        final(st).selected == old(st).selected,
        final(st).insert_pos == old(st).insert_pos,
        final(st).query == old(st).query,
{
    if k.ctrl {
        if st.info.len() > 0 && st.info_scroll < usize::MAX {
            st.info_scroll = st.info_scroll + 1;
            st.redraw = true;
        }
    } else if n > 0 {
        st.current = move_down(st.current, n);
        st.info = Vec::new();
        st.redraw = true;
    }
    Action::Nothing
}

fn key_select_page_back(st: &mut UiState, n: usize, per: usize)
    -> (r: Action)
    requires
        per >= 1,
        n as int == 0 ==> old(st).current == 0,
        n as int > 0 ==> (old(st).current as int) < n as int,
    ensures
        select_page_back_post(*old(st), *final(st), n as int, per as int, r),
        final(st).current == old(st).current || (n > 0 && (final(st).current as int) < n as int),
        final(st).selected == old(st).selected,
        final(st).insert_pos == old(st).insert_pos,
        final(st).query == old(st).query,
{
    if n > 0 && n - 1 > per {
        st.current = page_back(st.current, n, per);
        st.info = Vec::new();
        st.redraw = true;
    }
    Action::Nothing
}

fn key_select_page_forward(st: &mut UiState, n: usize, per: usize)
    -> (r: Action)
    requires
        per >= 1,
        n as int == 0 ==> old(st).current == 0,
        n as int > 0 ==> (old(st).current as int) < n as int,
    ensures
        select_page_forward_post(*old(st), *final(st), n as int, per as int, r),
        final(st).current == old(st).current || (n > 0 && (final(st).current as int) < n as int),
        final(st).selected == old(st).selected,
        final(st).insert_pos == old(st).insert_pos,
        final(st).query == old(st).query,
{
    if n > 0 && n > per {
        st.current = page_forward(st.current, n, per);
        st.info = Vec::new();
        st.redraw = true;
    }
    Action::Nothing
}


/// Replaces the characters of `q` between `lo` and `hi` with `mid`.
fn splice_chars(q: &Vec<char>, lo: usize, hi: usize, mid: &Vec<char>) -> (r: Vec<char>)
    requires
        lo <= hi <= q@.len(),
    ensures
        r@ == q@.take(lo as int) + mid@ + q@.skip(hi as int),
{
    let mut out: Vec<char> = Vec::new();
    let mut t: usize = 0;
    while t < lo
        invariant
            lo <= hi <= q@.len(),
            0 <= t <= lo,
            out@ == q@.subrange(0, t as int),
        decreases lo - t,
    {
        out.push(q[t]);
        proof {
            assert(q@.subrange(0, t as int).push(q@[t as int]) =~= q@.subrange(0, t + 1));
        }
        t = t + 1;
    }
    proof {
        assert(q@.subrange(0, lo as int) =~= q@.take(lo as int));
    }
    let mn = mid.len();
    let mut m: usize = 0;
    while m < mn
        invariant
            lo <= hi <= q@.len(),
            mn == mid@.len(),
            0 <= m <= mn,
            out@ == q@.take(lo as int) + mid@.subrange(0, m as int),
        decreases mn - m,
    {
        out.push(mid[m]);
        proof {
            assert((q@.take(lo as int) + mid@.subrange(0, m as int)).push(mid@[m as int]) =~= q@
                .take(lo as int) + mid@.subrange(0, m + 1));
        }
        m = m + 1;
    }
    proof {
        assert(mid@.subrange(0, mn as int) =~= mid@);
    }
    let n = q.len();
    let mut t2: usize = hi;
    while t2 < n
        invariant
            lo <= hi <= n == q@.len(),
            mn == mid@.len(),
            hi <= t2 <= n,
            out@ == q@.take(lo as int) + mid@ + q@.subrange(hi as int, t2 as int),
        decreases n - t2,
    {
        out.push(q[t2]);
        proof {
            assert((q@.take(lo as int) + mid@ + q@.subrange(hi as int, t2 as int)).push(
                q@[t2 as int],
            ) =~= q@.take(lo as int) + mid@ + q@.subrange(hi as int, t2 + 1));
        }
        t2 = t2 + 1;
    }
    proof {
        assert(q@.subrange(hi as int, n as int) =~= q@.skip(hi as int));
        assert(out@ =~= q@.take(lo as int) + mid@ + q@.skip(hi as int));
    }
    out
}

/// The pasted text as it enters the query: newlines removed, then trimmed.
pub open spec fn cleaned_paste(s: Seq<char>) -> Seq<char> {
    text::trim_spec(text::strip_newlines(s))
}

fn clean_paste(pasted: &Vec<char>) -> (r: Vec<char>)
    ensures
        r@ == cleaned_paste(pasted@),
{
    let n = pasted.len();
    let mut f: Vec<char> = Vec::new();
    proof {
        assert(pasted@.take(0) =~= Seq::<char>::empty());
    }
    let mut i: usize = 0;
    while i < n
        invariant
            n == pasted@.len(),
            0 <= i <= n,
            f@ == text::strip_newlines(pasted@.take(i as int)),
        decreases n - i,
    {
        proof {
            let pre = pasted@.take(i as int);
            let post = pasted@.take(i + 1);
            assert(post.drop_last() =~= pre);
            assert(post.last() == pasted@[i as int]);
        }
        let c = pasted[i];
        if c != '\n' {
            f.push(c);
            proof {
                assert(f@ =~= text::strip_newlines(pasted@.take(i as int)) + seq![
                    pasted@[i as int],
                ]);
            }
        } else {
            proof {
                assert(f@ =~= text::strip_newlines(pasted@.take(i as int))
                    + Seq::<char>::empty());
            }
        }
        i = i + 1;
    }
    proof {
        assert(pasted@.take(n as int) =~= pasted@);
    }
    trim_chars(&f)
}

fn trim_chars(v: &Vec<char>) -> (r: Vec<char>)
    ensures
        r@ == text::trim_spec(v@),
{
    let n = v.len();
    let mut lo: usize = 0;
    while lo < n && text::space_char(v[lo])
        invariant
            n == v@.len(),
            0 <= lo <= n,
            forall|i: int| 0 <= i < lo ==> text::is_space(#[trigger] v@[i]),
        decreases n - lo,
    {
        lo = lo + 1;
    }
    proof {
        text::lemma_trim_start_prefix(v@, lo as int);
    }
    if lo == n {
        let out: Vec<char> = Vec::new();
        proof {
            assert(v@.subrange(n as int, n as int) =~= Seq::<char>::empty());
            assert(out@ =~= text::trim_spec(v@));
        }
        return out;
    }
    let mut hi: usize = n;
    while hi > lo + 1 && text::space_char(v[hi - 1])
        invariant
            n == v@.len(),
            0 <= lo < hi <= n,
            !text::is_space(v@[lo as int]),
            forall|i: int| hi <= i < n ==> text::is_space(#[trigger] v@[i]),
        decreases hi,
    {
        hi = hi - 1;
    }
    let mut out: Vec<char> = Vec::new();
    let mut t: usize = lo;
    while t < hi
        invariant
            lo <= t <= hi <= n == v@.len(),
            out@ == v@.subrange(lo as int, t as int),
        decreases hi - t,
    {
        out.push(v[t]);
        proof {
            assert(v@.subrange(lo as int, t as int).push(v@[t as int]) =~= v@.subrange(
                lo as int,
                t + 1,
            ));
        }
        t = t + 1;
    }
    proof {
        let tr = v@.subrange(lo as int, n as int);
        assert(!text::is_space(v@[hi - 1])) by {
            if hi > lo + 1 {
            } else {
                assert(hi == lo + 1);
            }
        }
        text::lemma_trim_end_suffix(tr, hi - lo);
        assert(tr.subrange(0, hi - lo) =~= v@.subrange(lo as int, hi as int));
    }
    out
}

/// What pasted text does: in `Insert` mode the cleaned text enters the
/// query at the caret; in `Select` mode nothing happens.
pub open spec fn paste_post(pre: UiState, post: UiState, pasted: Seq<char>, r: Action) -> bool {
    if pre.mode == Mode::Insert {
        let cl = cleaned_paste(pasted);
        &&& post == (UiState { query: post.query, insert_pos: post.insert_pos, redraw: true, ..pre })
        &&& post.query@ == pre.query@.take(pre.insert_pos as int) + cl + pre.query@.skip(
            pre.insert_pos as int,
        )
        &&& post.insert_pos as int == pre.insert_pos + cl.len()
        &&& r is Nothing
    } else {
        post == pre && r is Nothing
    }
}

/// Handles pasted text.
pub fn handle_paste(st: &mut UiState, pasted: &Vec<char>, ctx: &Ctx) -> (r: Action)
    requires
        ctx.wf(),
        old(st).wf(ctx.count_spec()),
    ensures
        final(st).wf(ctx.count_spec()),
        paste_post(*old(st), *final(st), pasted@, r),
{
    match st.mode {
        Mode::Insert => {
            let cl = clean_paste(pasted);
            let nq = splice_chars(&st.query, st.insert_pos, st.insert_pos, &cl);
            proof {
                vstd::std_specs::vec::axiom_spec_len(&nq);
                assert(nq@.len() == st.insert_pos + cl@.len() + (st.query@.len()
                    - st.insert_pos));
            }
            let np = st.insert_pos + cl.len();
            st.query = nq;
            st.insert_pos = np;
            st.redraw = true;
            Action::Nothing
        },
        Mode::Select => Action::Nothing,
    }
}

/// What a mouse event does: scrolling moves the cursor or the detail text,
/// a click in the title bar returns to `Insert` mode, a click in the list
/// focuses (and, with the right button, toggles selection of) the row under
/// the pointer.
pub open spec fn mouse_post(
    pre: UiState,
    post: UiState,
    m: MouseEvent,
    shown: Shown,
    n: int,
    per: int,
    width: int,
    height: int,
    r: Action,
) -> bool {
    match m.kind {
        MouseKind::ScrollUp | MouseKind::ScrollDown => if pre.mode == Mode::Select {
            if within_list_spec(width, height, m.row as int, m.col as int) {
                if n > 0 {
                    &&& post == (UiState {
                        current: post.current,
                        info_scroll: 0,
                        info: post.info,
                        redraw: true,
                        ..pre
                    })
                    &&& post.current as int == (if m.kind is ScrollUp {
                        move_up_spec(pre.current as int, n)
                    } else {
                        move_down_spec(pre.current as int, n)
                    })
                    &&& post.info@ == Seq::<InfoLine>::empty()
                    &&& r is Nothing
                } else {
                    post == pre && r is Nothing
                }
            } else if within_info_spec(width, height, m.row as int, m.col as int) && pre.info@.len()
                > 0 {
                &&& post == (UiState { info_scroll: post.info_scroll, redraw: true, ..pre })
                &&& post.info_scroll as int == (if m.kind is ScrollUp {
                    if pre.info_scroll > 0 {
                        pre.info_scroll - 1
                    } else {
                        0
                    }
                } else {
                    if pre.info_scroll < usize::MAX {
                        pre.info_scroll + 1
                    } else {
                        pre.info_scroll as int
                    }
                })
                &&& r is Nothing
            } else {
                post == pre && r is Nothing
            }
        } else {
            post == pre && r is Nothing
        },
        MouseKind::LeftDown => if m.row <= 2 {
            &&& post == (UiState {
                mode: Mode::Insert,
                redraw: (pre.redraw || pre.mode == Mode::Select),
                ..pre
            })
            &&& r is Nothing
        } else {
            let mid = (UiState {
                mode: (if n > 0 {
                    Mode::Select
                } else {
                    pre.mode
                }),
                redraw: (pre.redraw || (n > 0 && pre.mode == Mode::Insert)),
                ..pre
            });
            click_post(mid, post, m, shown, n, per, width, height, false) && r is Nothing
        },
        MouseKind::RightDown => click_post(pre, post, m, shown, n, per, width, height, true) && r
            is Nothing,
        MouseKind::Other => post == pre && r is Nothing,
    }
}

/// A click inside the list pane focuses the row under the pointer,
/// invalidating the detail cache when the focus moves; a right-button click
/// also toggles that row's selection.
pub open spec fn click_post(
    pre: UiState,
    post: UiState,
    m: MouseEvent,
    shown: Shown,
    n: int,
    per: int,
    width: int,
    height: int,
    toggle: bool,
) -> bool {
    if within_list_spec(width, height, m.row as int, m.col as int) {
        let clicked = pre.current as int / per * per + m.row - 4;
        if clicked < n {
            let realc = real_at(shown, clicked) as usize;
            &&& post == (UiState {
                current: post.current,
                info_scroll: post.info_scroll,
                info: post.info,
                selected: post.selected,
                redraw: true,
                ..pre
            })
            &&& post.selected@ == (if toggle {
                toggle_spec(pre.selected@, realc)
            } else {
                pre.selected@
            })
            &&& post.selected.wf()
            &&& (if clicked != pre.current as int {
                &&& post.current as int == clicked
                &&& post.info_scroll == 0
                &&& post.info@ == Seq::<InfoLine>::empty()
            } else {
                &&& post.current == pre.current
                &&& post.info_scroll == pre.info_scroll
                &&& post.info == pre.info
            })
        } else {
            post == pre
        }
    } else {
        post == pre
    }
}

fn handle_click(st: &mut UiState, m: MouseEvent, ctx: &Ctx, toggle: bool)
    requires
        ctx.wf(),
        old(st).wf(ctx.count_spec()),
    ensures
        final(st).wf(ctx.count_spec()),
        click_post(
            *old(st),
            *final(st),
            m,
            *ctx.shown,
            ctx.count_spec(),
            ctx.per_page_spec(),
            ctx.width as int,
            ctx.height as int,
            toggle,
        ),
{
    let n = ctx.count();
    let per = ctx.per_page();
    if within_list(ctx.width, ctx.height, m.row, m.col) {
        proof {
            lemma_div_mul_le(st.current as int, per as int);
        }
        let page_start = st.current / per * per;
        let offset = (m.row - 4) as usize;
        if page_start < n && offset < n - page_start {
            let clicked = page_start + offset;
            if toggle {
                let realc = real_index(ctx.shown, clicked);
                st.selected.toggle(realc);
            }
            if clicked != st.current {
                st.current = clicked;
                st.info_scroll = 0;
                st.info = Vec::new();
            }
            st.redraw = true;
        } else {
            proof {
                assert(st.current as int / per as int * per as int + m.row - 4 >= n);
            }
        }
    }
}

/// Handles a mouse event.
pub fn handle_mouse(st: &mut UiState, m: MouseEvent, ctx: &Ctx) -> (r: Action)
    requires
        ctx.wf(),
        old(st).wf(ctx.count_spec()),
    ensures
        final(st).wf(ctx.count_spec()),
        mouse_post(
            *old(st),
            *final(st),
            m,
            *ctx.shown,
            ctx.count_spec(),
            ctx.per_page_spec(),
            ctx.width as int,
            ctx.height as int,
            r,
        ),
{
    let n = ctx.count();
    match m.kind {
        MouseKind::ScrollUp | MouseKind::ScrollDown => {
            let in_select = match st.mode {
                Mode::Select => true,
                Mode::Insert => false,
            };
            if in_select {
                if within_list(ctx.width, ctx.height, m.row, m.col) {
                    if n > 0 {
                        let up = match m.kind {
                            MouseKind::ScrollUp => true,
                            _ => false,
                        };
                        if up {
                            st.current = move_up(st.current, n);
                        } else {
                            st.current = move_down(st.current, n);
                        }
                        st.info_scroll = 0;
                        st.info = Vec::new();
                        st.redraw = true;
                    }
                } else if within_info(ctx.width, ctx.height, m.row, m.col) && st.info.len() > 0 {
                    let up = match m.kind {
                        MouseKind::ScrollUp => true,
                        _ => false,
                    };
                    if up {
                        if st.info_scroll > 0 {
                            st.info_scroll = st.info_scroll - 1;
                        }
                    } else {
                        if st.info_scroll < usize::MAX {
                            st.info_scroll = st.info_scroll + 1;
                        }
                    }
                    st.redraw = true;
                }
            }
            Action::Nothing
        },
        MouseKind::LeftDown => {
            if m.row <= 2 {
                let was_select = match st.mode {
                    Mode::Select => true,
                    Mode::Insert => false,
                };
                st.mode = Mode::Insert;
                if was_select {
                    st.redraw = true;
                }
                return Action::Nothing;
            }
            if n > 0 {
                let was_insert = match st.mode {
                    Mode::Insert => true,
                    Mode::Select => false,
                };
                st.mode = Mode::Select;
                if was_insert {
                    st.redraw = true;
                }
            }
            handle_click(st, m, ctx, false);
            Action::Nothing
        },
        MouseKind::RightDown => {
            handle_click(st, m, ctx, true);
            Action::Nothing
        },
        MouseKind::Other => Action::Nothing,
    }
}

/// What one input event does to the state, and which action it demands.
pub open spec fn event_post(
    pre: UiState,
    post: UiState,
    ev: Event,
    shown: Shown,
    n: int,
    per: int,
    installed: Set<usize>,
    ready: bool,
    width: int,
    height: int,
    r: Action,
) -> bool {
    match ev {
        Event::Key(k) => if pre.mode == Mode::Insert {
            insert_post(pre, post, k, n, ready, r)
        } else {
            select_post(pre, post, k, shown, n, per, installed, r)
        },
        Event::Mouse(m) => mouse_post(pre, post, m, shown, n, per, width, height, r),
        Event::Paste(p) => paste_post(pre, post, p@, r),
        Event::Resize => post == (UiState { redraw: true, ..pre }) && r is Nothing,
    }
}

/// Handles one input event: dispatches on the event and the current mode,
/// mutates the state, and returns the action the event loop must carry out.
pub fn handle_event(st: &mut UiState, ev: &Event, ctx: &Ctx) -> (r: Action)
    requires
        ctx.wf(),
        old(st).wf(ctx.count_spec()),
    ensures
        final(st).wf(ctx.count_spec()),
        event_post(
            *old(st),
            *final(st),
            *ev,
            *ctx.shown,
            ctx.count_spec(),
            ctx.per_page_spec(),
            ctx.installed@,
            ctx.catalogue_ready,
            ctx.width as int,
            ctx.height as int,
            r,
        ),
{
    match ev {
        Event::Key(k) => {
            let in_insert = match st.mode {
                Mode::Insert => true,
                Mode::Select => false,
            };
            if in_insert {
                handle_key_insert(st, *k, ctx)
            } else {
                handle_key_select(st, *k, ctx)
            }
        },
        Event::Mouse(m) => handle_mouse(st, *m, ctx),
        Event::Paste(p) => handle_paste(st, p, ctx),
        Event::Resize => {
            st.redraw = true;
            Action::Nothing
        },
    }
}


/// Installs a completed detail fetch into the single-slot cache, but only
/// when it still answers the focused row: a fetch that raced a cursor move
/// is discarded, so a stale result can never overwrite the cache after it
/// was invalidated.
pub fn accept_detail(st: &mut UiState, fetched_for: usize, lines: Vec<InfoLine>, ctx: &Ctx) -> (
    accepted: bool)
    requires
        ctx.wf(),
        old(st).wf(ctx.count_spec()),
    ensures
        final(st).wf(ctx.count_spec()),
        accepted == (fetched_for as int == real_at(*ctx.shown, old(st).current as int)),
        accepted ==> (*final(st) == (UiState { info: final(st).info, redraw: true, ..*old(st) })
            && final(st).info == lines),
        !accepted ==> *final(st) == *old(st),
{
    let realp = real_index(ctx.shown, st.current);
    if fetched_for == realp {
        st.info = lines;
        st.redraw = true;
        true
    } else {
        false
    }
}

} // verus!
