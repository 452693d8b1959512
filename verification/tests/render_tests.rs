use std::collections::HashSet;

use parui::catalogue::Catalogue;
use parui::render::format_results;
use parui::render::Row;
use parui::render::RowStyle;
use parui::search::search;
use parui::shown::Shown;

fn catalogue_of(names: &[&str]) -> Catalogue {
    let mut cat = Catalogue::new();
    for name in names {
        cat.push(name);
    }
    cat
}

fn positions(ps: &[usize]) -> HashSet<usize> {
    ps.iter().copied().collect()
}

#[test]
fn scenario_two_uninstalled_rows() {
    let cat = catalogue_of(&["foo", "foobar", "baz"]);
    let installed = positions(&[2]);
    let selected = HashSet::new();
    let shown = search("foo", &cat);
    assert_eq!(shown, Shown::Few(vec![0, 1]));
    let rows = format_results(&cat, &shown, 0, &selected, 10, 1, 0, &installed);
    assert_eq!(rows.len(), 2);
    assert_eq!(rows[0].name, "foo");
    assert_eq!(rows[0].style, RowStyle::UninstalledCurrent);
    assert_eq!(rows[1].name, "foobar");
    assert_eq!(rows[1].style, RowStyle::Uninstalled);
}

#[test]
fn scenario_all_rows_with_installed_baz() {
    let cat = catalogue_of(&["foo", "foobar", "baz"]);
    let installed = positions(&[2]);
    let selected = HashSet::new();
    let shown = search("", &cat);
    assert_eq!(shown, Shown::All);
    let rows = format_results(&cat, &shown, 0, &selected, 10, 1, 0, &installed);
    assert_eq!(rows.len(), 3);
    assert_eq!(rows[0].name, "foo");
    assert_eq!(rows[1].name, "foobar");
    assert_eq!(rows[2].name, "baz");
    assert_eq!(rows[2].style, RowStyle::Installed);
}

#[test]
fn row_count_never_exceeds_viewport_budget() {
    let names: Vec<String> = (0..40).map(|i| format!("pkg{}", i)).collect();
    let mut cat = Catalogue::new();
    for n in &names {
        cat.push(n);
    }
    let installed = HashSet::new();
    let selected = HashSet::new();
    let rows = format_results(&cat, &Shown::All, 0, &selected, 12, 2, 0, &installed);
    assert_eq!(rows.len(), 7);
    let rows = format_results(&cat, &Shown::All, 0, &selected, 4, 2, 0, &installed);
    assert_eq!(rows.len(), 0);
    let rows = format_results(&cat, &Shown::All, 0, &selected, 5, 2, 0, &installed);
    assert_eq!(rows.len(), 0);
}

#[test]
fn skip_past_the_end_gives_no_rows() {
    let cat = catalogue_of(&["a", "b"]);
    let installed = HashSet::new();
    let selected = HashSet::new();
    let rows = format_results(&cat, &Shown::All, 0, &selected, 10, 1, 5, &installed);
    assert_eq!(rows.len(), 0);
}

#[test]
fn render_is_idempotent() {
    let cat = catalogue_of(&["foo", "foobar", "baz"]);
    let installed = positions(&[1]);
    let selected = positions(&[2]);
    let shown = Shown::All;
    let a: Vec<Row> = format_results(&cat, &shown, 1, &selected, 10, 1, 0, &installed);
    let b: Vec<Row> = format_results(&cat, &shown, 1, &selected, 10, 1, 0, &installed);
    assert_eq!(a, b);
}

#[test]
fn display_index_and_padding_align() {
    let names: Vec<String> = (0..12).map(|i| format!("p{}", i)).collect();
    let mut cat = Catalogue::new();
    for n in &names {
        cat.push(n);
    }
    let installed = HashSet::new();
    let selected = HashSet::new();
    // pad_to is the digit width of the total count (12 -> 2).
    let rows = format_results(&cat, &Shown::All, 0, &selected, 16, 2, 8, &installed);
    assert_eq!(rows.len(), 4);
    // Row "9" needs one pad space, row "10" none beyond the base one.
    assert_eq!(rows[0].index, 9);
    assert_eq!(rows[0].padding, 2);
    assert_eq!(rows[1].index, 10);
    assert_eq!(rows[1].padding, 1);
}

#[test]
fn selection_marker_follows_real_position() {
    let cat = catalogue_of(&["foo", "foobar", "baz"]);
    let installed = HashSet::new();
    let selected = positions(&[2]);
    let shown = Shown::Few(vec![0, 2]);
    let rows = format_results(&cat, &shown, 0, &selected, 10, 1, 0, &installed);
    assert_eq!(rows.len(), 2);
    assert!(!rows[0].marked);
    assert!(rows[1].marked);
    assert_eq!(rows[1].name, "baz");
}
