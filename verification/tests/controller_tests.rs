use std::collections::HashSet;

use parui::controller::accept_detail;
use parui::controller::handle_event;
use parui::controller::last_word_end;
use parui::controller::next_word_start;
use parui::controller::within_info;
use parui::controller::within_list;
use parui::controller::Action;
use parui::controller::Ctx;
use parui::controller::Event;
use parui::controller::Key;
use parui::controller::KeyEvent;
use parui::controller::MouseEvent;
use parui::controller::MouseKind;
use parui::controller::UiState;
use parui::detail::InfoLine;
use parui::message::Message;
use parui::mode::Mode;
use parui::shown::Shown;

fn key(code: Key) -> Event {
    Event::Key(KeyEvent { code, ctrl: false })
}

fn ctrl_key(code: Key) -> Event {
    Event::Key(KeyEvent { code, ctrl: true })
}

fn chars(s: &str) -> Vec<char> {
    s.chars().collect()
}

struct Session {
    shown: Shown,
    installed: HashSet<usize>,
}

impl Session {
    fn new(shown: Shown, installed: &[usize]) -> Session {
        Session { shown, installed: installed.iter().copied().collect() }
    }

    fn ctx(&self, cat_len: usize) -> Ctx<'_> {
        Ctx {
            shown: &self.shown,
            cat_len,
            catalogue_ready: true,
            installed: &self.installed,
            width: 80,
            height: 15,
        }
    }
}

fn select_state(query: &str, current: usize) -> UiState {
    let mut st = UiState::new(chars(query));
    st.mode = Mode::Select;
    st.current = current;
    st
}

#[test]
fn toggling_selection_twice_restores_it() {
    let s = Session::new(Shown::Few(vec![0, 1, 2]), &[]);
    let ctx = s.ctx(3);
    let mut st = select_state("x", 1);
    assert!(!st.selected.contains(1));
    handle_event(&mut st, &key(Key::Char(' ')), &ctx);
    assert!(st.selected.contains(1));
    handle_event(&mut st, &key(Key::Char(' ')), &ctx);
    assert!(!st.selected.contains(1));
}

#[test]
fn cursor_wraps_at_both_ends() {
    let s = Session::new(Shown::Few(vec![0, 1, 2]), &[]);
    let ctx = s.ctx(3);
    let mut st = select_state("x", 0);
    handle_event(&mut st, &key(Key::Up), &ctx);
    assert_eq!(st.current, 2);
    handle_event(&mut st, &key(Key::Down), &ctx);
    assert_eq!(st.current, 0);
    handle_event(&mut st, &key(Key::Char('j')), &ctx);
    assert_eq!(st.current, 1);
    handle_event(&mut st, &key(Key::Char('k')), &ctx);
    assert_eq!(st.current, 0);
}

#[test]
fn cursor_movement_invalidates_detail_cache() {
    let s = Session::new(Shown::Few(vec![0, 1, 2]), &[]);
    let ctx = s.ctx(3);
    let mut st = select_state("x", 0);
    st.info = vec![InfoLine::Plain(" cached".to_string())];
    handle_event(&mut st, &key(Key::Down), &ctx);
    assert!(st.info.is_empty());
}

#[test]
fn paging_jumps_by_a_viewport_page() {
    // height 15 -> 10 rows per page; 25 shown rows.
    let shown: Vec<usize> = (0..25).collect();
    let s = Session::new(Shown::Few(shown), &[]);
    let ctx = s.ctx(25);
    let mut st = select_state("x", 0);
    handle_event(&mut st, &key(Key::PageDown), &ctx);
    assert_eq!(st.current, 10);
    handle_event(&mut st, &key(Key::PageDown), &ctx);
    assert_eq!(st.current, 20);
    // Less than a page remains: jump to the last row.
    handle_event(&mut st, &key(Key::PageDown), &ctx);
    assert_eq!(st.current, 24);
    // On the last row: wrap to the first.
    handle_event(&mut st, &key(Key::PageDown), &ctx);
    assert_eq!(st.current, 0);
    // Page back off the first page wraps to the last page boundary.
    handle_event(&mut st, &key(Key::PageUp), &ctx);
    assert_eq!(st.current, 20);
    handle_event(&mut st, &key(Key::PageUp), &ctx);
    assert_eq!(st.current, 10);
}

#[test]
fn home_and_end_jump_to_bounds() {
    let shown: Vec<usize> = (0..8).collect();
    let s = Session::new(Shown::Few(shown), &[]);
    let ctx = s.ctx(8);
    let mut st = select_state("x", 3);
    handle_event(&mut st, &key(Key::End), &ctx);
    assert_eq!(st.current, 7);
    handle_event(&mut st, &key(Key::Home), &ctx);
    assert_eq!(st.current, 0);
    handle_event(&mut st, &key(Key::Char('G')), &ctx);
    assert_eq!(st.current, 7);
    handle_event(&mut st, &key(Key::Char('g')), &ctx);
    assert_eq!(st.current, 0);
}

#[test]
fn escape_enters_select_only_with_results() {
    let empty = Session::new(Shown::Few(vec![]), &[]);
    let mut st = UiState::new(chars("q"));
    handle_event(&mut st, &key(Key::Esc), &empty.ctx(0));
    assert_eq!(st.mode, Mode::Insert);

    let some = Session::new(Shown::Few(vec![0]), &[]);
    handle_event(&mut st, &key(Key::Esc), &some.ctx(1));
    assert_eq!(st.mode, Mode::Select);
    assert_eq!(st.current, 0);
}

#[test]
fn select_returns_to_insert_on_escape_i_and_slash() {
    let s = Session::new(Shown::Few(vec![0]), &[]);
    let ctx = s.ctx(1);
    for code in [Key::Esc, Key::Char('i'), Key::Char('/')] {
        let mut st = select_state("abc", 0);
        handle_event(&mut st, &key(code), &ctx);
        assert_eq!(st.mode, Mode::Insert);
        assert_eq!(st.insert_pos, 3);
    }
}

#[test]
fn submit_needs_more_than_one_character() {
    let s = Session::new(Shown::Few(vec![]), &[]);
    let ctx = s.ctx(5);
    let mut st = UiState::new(chars("ab"));
    assert_eq!(handle_event(&mut st, &key(Key::Enter), &ctx), Action::Search);

    let mut short = UiState::new(chars("a"));
    assert_eq!(handle_event(&mut short, &key(Key::Enter), &ctx), Action::Nothing);
    assert_eq!(short.message, Message::TrySearch);
}

#[test]
fn submit_waits_for_the_catalogue() {
    let shown = Shown::Few(vec![]);
    let installed = HashSet::new();
    let ctx = Ctx {
        shown: &shown,
        cat_len: 0,
        catalogue_ready: false,
        installed: &installed,
        width: 80,
        height: 15,
    };
    let mut st = UiState::new(chars("firefox"));
    assert_eq!(handle_event(&mut st, &key(Key::Enter), &ctx), Action::Nothing);
}

#[test]
fn query_editing_inserts_and_deletes() {
    let s = Session::new(Shown::Few(vec![]), &[]);
    let ctx = s.ctx(0);
    let mut st = UiState::new(chars("ac"));
    handle_event(&mut st, &key(Key::Left), &ctx);
    assert_eq!(st.insert_pos, 1);
    handle_event(&mut st, &key(Key::Char('b')), &ctx);
    assert_eq!(st.query, chars("abc"));
    assert_eq!(st.insert_pos, 2);
    handle_event(&mut st, &key(Key::Backspace), &ctx);
    assert_eq!(st.query, chars("ac"));
    assert_eq!(st.insert_pos, 1);
}

#[test]
fn caret_wraps_and_jumps_by_words() {
    let s = Session::new(Shown::Few(vec![]), &[]);
    let ctx = s.ctx(0);
    let mut st = UiState::new(chars("one two"));
    assert_eq!(st.insert_pos, 7);
    handle_event(&mut st, &key(Key::Right), &ctx);
    assert_eq!(st.insert_pos, 0);
    handle_event(&mut st, &key(Key::Left), &ctx);
    assert_eq!(st.insert_pos, 7);
    handle_event(&mut st, &ctrl_key(Key::Left), &ctx);
    assert_eq!(st.insert_pos, 4);
    handle_event(&mut st, &ctrl_key(Key::Right), &ctx);
    assert_eq!(st.insert_pos, 7);
    handle_event(&mut st, &key(Key::Home), &ctx);
    assert_eq!(st.insert_pos, 0);
    handle_event(&mut st, &key(Key::End), &ctx);
    assert_eq!(st.insert_pos, 7);
}

#[test]
fn ctrl_w_deletes_the_previous_word() {
    let s = Session::new(Shown::Few(vec![]), &[]);
    let ctx = s.ctx(0);
    let mut st = UiState::new(chars("one two"));
    handle_event(&mut st, &ctrl_key(Key::Char('w')), &ctx);
    assert_eq!(st.query, chars("one "));
    assert_eq!(st.insert_pos, 4);
}

#[test]
fn word_jump_helpers_match_byte_semantics() {
    let q = chars("a-b_c d");
    assert_eq!(last_word_end(&q, 7), 6);
    assert_eq!(last_word_end(&q, 6), 4);
    assert_eq!(last_word_end(&q, 3), 2);
    assert_eq!(last_word_end(&q, 2), 0);
    assert_eq!(last_word_end(&q, 1), 0);
    assert_eq!(last_word_end(&q, 0), 0);
    assert_eq!(next_word_start(&q, 0), 2);
    assert_eq!(next_word_start(&q, 2), 4);
    assert_eq!(next_word_start(&q, 6), 7);
    assert_eq!(next_word_start(&q, 7), 7);
}

#[test]
fn paste_is_cleaned_and_enters_at_the_caret() {
    let s = Session::new(Shown::Few(vec![]), &[]);
    let ctx = s.ctx(0);
    let mut st = UiState::new(chars("xy"));
    st.insert_pos = 1;
    handle_event(&mut st, &Event::Paste(chars("  a\nb  ")), &ctx);
    assert_eq!(st.query, chars("xaby"));
    assert_eq!(st.insert_pos, 3);
}

#[test]
fn paste_is_ignored_while_browsing() {
    let s = Session::new(Shown::Few(vec![0]), &[]);
    let ctx = s.ctx(1);
    let mut st = select_state("xy", 0);
    handle_event(&mut st, &Event::Paste(chars("zz")), &ctx);
    assert_eq!(st.query, chars("xy"));
}

#[test]
fn enter_installs_current_row_without_selection() {
    let s = Session::new(Shown::Few(vec![4, 7]), &[]);
    let ctx = s.ctx(9);
    let mut st = select_state("x", 1);
    let action = handle_event(&mut st, &key(Key::Enter), &ctx);
    assert_eq!(action, Action::Install(vec![7]));
}

#[test]
fn enter_installs_the_whole_selection() {
    let s = Session::new(Shown::Few(vec![4, 7, 9]), &[]);
    let ctx = s.ctx(10);
    let mut st = select_state("x", 0);
    handle_event(&mut st, &key(Key::Char(' ')), &ctx);
    st.current = 2;
    handle_event(&mut st, &key(Key::Char(' ')), &ctx);
    let action = handle_event(&mut st, &key(Key::Enter), &ctx);
    assert_eq!(action, Action::Install(vec![4, 9]));
}

#[test]
fn remove_targets_only_installed_packages() {
    let s = Session::new(Shown::Few(vec![0, 1, 2]), &[0, 2]);
    let ctx = s.ctx(3);
    let mut st = select_state("x", 0);
    for _ in 0..3 {
        handle_event(&mut st, &key(Key::Char(' ')), &ctx);
        handle_event(&mut st, &key(Key::Down), &ctx);
    }
    let action = handle_event(&mut st, &key(Key::Char('R')), &ctx);
    assert_eq!(action, Action::Remove(vec![0, 2]));
}

#[test]
fn remove_is_a_no_op_when_nothing_installed_is_targeted() {
    let s = Session::new(Shown::Few(vec![1]), &[0]);
    let ctx = s.ctx(2);
    let mut st = select_state("x", 0);
    let action = handle_event(&mut st, &key(Key::Char('R')), &ctx);
    assert_eq!(action, Action::Nothing);
}

#[test]
fn remove_acts_on_the_current_row_when_it_is_installed() {
    let s = Session::new(Shown::Few(vec![1]), &[1]);
    let ctx = s.ctx(2);
    let mut st = select_state("x", 0);
    let action = handle_event(&mut st, &key(Key::Char('R')), &ctx);
    assert_eq!(action, Action::Remove(vec![1]));
}

#[test]
fn quit_keys_exit() {
    let s = Session::new(Shown::Few(vec![0]), &[]);
    let ctx = s.ctx(1);
    let mut st = select_state("x", 0);
    assert_eq!(handle_event(&mut st, &key(Key::Char('q')), &ctx), Action::Exit);
    let mut st2 = select_state("x", 0);
    assert_eq!(handle_event(&mut st2, &ctrl_key(Key::Char('c')), &ctx), Action::Exit);
    let mut st3 = UiState::new(chars("x"));
    assert_eq!(handle_event(&mut st3, &ctrl_key(Key::Char('c')), &ctx), Action::Exit);
}

#[test]
fn resize_requests_a_redraw() {
    let s = Session::new(Shown::Few(vec![]), &[]);
    let ctx = s.ctx(0);
    let mut st = UiState::new(chars(""));
    st.redraw = false;
    handle_event(&mut st, &Event::Resize, &ctx);
    assert!(st.redraw);
}

#[test]
fn scrolling_the_list_moves_the_cursor() {
    let s = Session::new(Shown::Few(vec![0, 1, 2]), &[]);
    let ctx = s.ctx(3);
    let mut st = select_state("x", 1);
    let ev = Event::Mouse(MouseEvent { kind: MouseKind::ScrollDown, row: 6, col: 5 });
    handle_event(&mut st, &ev, &ctx);
    assert_eq!(st.current, 2);
    let ev = Event::Mouse(MouseEvent { kind: MouseKind::ScrollUp, row: 6, col: 5 });
    handle_event(&mut st, &ev, &ctx);
    assert_eq!(st.current, 1);
}

#[test]
fn clicking_a_row_focuses_it() {
    let s = Session::new(Shown::Few(vec![0, 1, 2]), &[]);
    let ctx = s.ctx(3);
    let mut st = select_state("x", 0);
    st.info = vec![InfoLine::Plain(" cached".to_string())];
    let ev = Event::Mouse(MouseEvent { kind: MouseKind::LeftDown, row: 6, col: 5 });
    handle_event(&mut st, &ev, &ctx);
    assert_eq!(st.current, 2);
    assert!(st.info.is_empty());
}

#[test]
fn right_click_toggles_the_selection() {
    let s = Session::new(Shown::Few(vec![5, 6, 7]), &[]);
    let ctx = s.ctx(8);
    let mut st = select_state("x", 0);
    let ev = Event::Mouse(MouseEvent { kind: MouseKind::RightDown, row: 5, col: 5 });
    handle_event(&mut st, &ev, &ctx);
    assert!(st.selected.contains(6));
}

#[test]
fn clicking_the_title_returns_to_insert() {
    let s = Session::new(Shown::Few(vec![0]), &[]);
    let ctx = s.ctx(1);
    let mut st = select_state("x", 0);
    let ev = Event::Mouse(MouseEvent { kind: MouseKind::LeftDown, row: 1, col: 5 });
    handle_event(&mut st, &ev, &ctx);
    assert_eq!(st.mode, Mode::Insert);
}

#[test]
fn stale_detail_results_are_discarded() {
    let s = Session::new(Shown::Few(vec![4, 7]), &[]);
    let ctx = s.ctx(9);
    let mut st = select_state("x", 0);
    let lines = vec![InfoLine::Plain(" stale".to_string())];
    // A fetch for catalogue position 7 raced a cursor now on position 4.
    assert!(!accept_detail(&mut st, 7, lines.clone(), &ctx));
    assert!(st.info.is_empty());
    assert!(accept_detail(&mut st, 4, lines.clone(), &ctx));
    assert_eq!(st.info, lines);
}

#[test]
fn geometry_of_the_panes() {
    assert!(within_list(80, 15, 4, 1));
    assert!(within_list(80, 15, 13, 38));
    assert!(!within_list(80, 15, 3, 5));
    assert!(!within_list(80, 15, 14, 5));
    assert!(!within_list(80, 15, 5, 0));
    assert!(!within_list(80, 15, 5, 39));
    assert!(within_info(80, 15, 5, 41));
    assert!(!within_info(80, 15, 4, 41));
    assert!(!within_info(80, 15, 5, 40));
    assert!(!within_info(80, 15, 13, 41));
}

#[test]
fn ctrl_scroll_moves_the_detail_text() {
    let s = Session::new(Shown::Few(vec![0]), &[]);
    let ctx = s.ctx(1);
    let mut st = select_state("x", 0);
    st.info = vec![InfoLine::Plain(" a".to_string()), InfoLine::Plain(" b".to_string())];
    handle_event(&mut st, &ctrl_key(Key::Down), &ctx);
    assert_eq!(st.info_scroll, 1);
    handle_event(&mut st, &ctrl_key(Key::Up), &ctx);
    assert_eq!(st.info_scroll, 0);
    // At the top already: scrolling up does nothing.
    handle_event(&mut st, &ctrl_key(Key::Up), &ctx);
    assert_eq!(st.info_scroll, 0);
    // With no detail text cached, scrolling down does nothing.
    st.info = Vec::new();
    handle_event(&mut st, &ctrl_key(Key::Down), &ctx);
    assert_eq!(st.info_scroll, 0);
}

#[test]
fn navigation_with_no_results_stays_put() {
    let s = Session::new(Shown::Few(vec![]), &[]);
    let ctx = s.ctx(0);
    let mut st = select_state("x", 0);
    for code in [Key::Up, Key::Down, Key::PageUp, Key::PageDown, Key::Home, Key::End] {
        handle_event(&mut st, &key(code), &ctx);
        assert_eq!(st.current, 0);
    }
    assert_eq!(handle_event(&mut st, &key(Key::Enter), &ctx), Action::Nothing);
    assert_eq!(handle_event(&mut st, &key(Key::Char('R')), &ctx), Action::Nothing);
}
