use std::collections::HashSet;

use parui::catalogue::Catalogue;
use parui::config::Config;
use parui::controller::note_search_started;
use parui::controller::finish_search;
use parui::controller::UiState;
use parui::installed::check_installed;
use parui::message::Message;
use parui::mode::Mode;
use parui::selset::SelSet;
use parui::shown::Shown;

fn catalogue_of(names: &[&str]) -> Catalogue {
    let mut cat = Catalogue::new();
    for name in names {
        cat.push(name);
    }
    cat
}

fn args(list: &[&str]) -> Vec<String> {
    list.iter().map(|s| s.to_string()).collect()
}

#[test]
fn config_defaults_to_paru_with_no_query() {
    let c = Config::new(&args(&["parui"]));
    assert_eq!(c.command, "paru");
    assert!(c.query.is_none());
}

#[test]
fn config_joins_positional_arguments_into_the_query() {
    let c = Config::new(&args(&["parui", "firefox", "esr"]));
    assert_eq!(c.query.as_deref(), Some("firefox esr"));
    assert_eq!(c.command, "paru");
}

#[test]
fn config_takes_the_last_command_flag() {
    let c = Config::new(&args(&["parui", "-p=pacman", "vim", "-p=yay"]));
    assert_eq!(c.command, "yay");
    assert_eq!(c.query.as_deref(), Some("vim"));
}

#[test]
fn config_ignores_help_flags_in_the_query() {
    let c = Config::new(&args(&["parui", "-h", "vim", "--help"]));
    assert_eq!(c.query.as_deref(), Some("vim"));
}

#[test]
fn check_installed_cross_references_names() {
    let cat = catalogue_of(&["alpha", "beta", "gamma", "beta"]);
    let names = vec!["beta".to_string(), "delta".to_string()];
    let set = check_installed(&cat, &names);
    assert!(!set.contains(&0));
    assert!(set.contains(&1));
    assert!(!set.contains(&2));
    assert!(set.contains(&3));
}

#[test]
fn check_installed_with_no_names_is_empty() {
    let cat = catalogue_of(&["alpha", "beta"]);
    let set = check_installed(&cat, &Vec::new());
    assert!(set.is_empty());
}

#[test]
fn check_installed_result_indexes_the_catalogue() {
    let cat = catalogue_of(&["a", "b"]);
    let names = vec!["a".to_string(), "b".to_string(), "zzz".to_string()];
    let set: HashSet<usize> = check_installed(&cat, &names);
    assert_eq!(set.len(), 2);
}

#[test]
fn search_lifecycle_messages_and_reset() {
    let mut st = UiState::new("query".chars().collect());
    st.current = 3;
    note_search_started(&mut st);
    assert_eq!(st.message, Message::Searching);

    finish_search(&mut st, 5);
    assert_eq!(st.current, 0);
    assert!(st.info.is_empty());
    assert_eq!(st.mode, Mode::Select);

    let mut empty_start = UiState::new(Vec::new());
    note_search_started(&mut empty_start);
    assert_eq!(empty_start.message, Message::ListingPackages);
    finish_search(&mut empty_start, 0);
    assert_eq!(empty_start.mode, Mode::Insert);
    assert_eq!(empty_start.message, Message::NoResults);
}

#[test]
fn status_messages_have_their_texts() {
    assert_eq!(Message::TrySearch.as_str(), "Try searching for something");
    assert_eq!(Message::ListingPackages.as_str(), "Listing packages...");
    assert_eq!(Message::Searching.as_str(), "Searching for packages...");
    assert_eq!(Message::NoResults.as_str(), "No results, try another query");
}

#[test]
fn selection_set_iterates_in_ascending_order() {
    let mut sel = SelSet::new();
    sel.toggle(9);
    sel.toggle(2);
    sel.toggle(5);
    assert_eq!(sel.len(), 3);
    assert_eq!(sel.at(0), 2);
    assert_eq!(sel.at(1), 5);
    assert_eq!(sel.at(2), 9);
    sel.toggle(5);
    assert_eq!(sel.len(), 2);
    assert!(!sel.contains(5));
    sel.clear();
    assert!(sel.is_empty());
}

#[test]
fn shown_operations_behave_like_a_view() {
    let mut s = Shown::All;
    assert!(!s.is_empty());
    assert!(s.len().is_none());
    assert!(s.get(0).is_none());
    assert!(s.get_vec().is_none());
    s.clear();
    assert!(s.is_empty());
    s.extend(&vec![3, 5]);
    assert_eq!(s.len(), Some(2));
    assert_eq!(s.get(1), Some(5));
    assert_eq!(s.get(2), None);
    assert_eq!(s.get_vec(), Some(&vec![3, 5]));

    let mut all = Shown::All;
    all.extend(&vec![1]);
    assert!(all.len().is_none());
}
