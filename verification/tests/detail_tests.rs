use std::collections::HashSet;

use parui::catalogue::Catalogue;
use parui::detail::parse_info;
use parui::detail::plan_info_query;
use parui::detail::InfoLine;

fn catalogue_of(names: &[&str]) -> Catalogue {
    let mut cat = Catalogue::new();
    for name in names {
        cat.push(name);
    }
    cat
}

#[test]
fn scenario_out_of_range_detail_is_empty() {
    let cat = catalogue_of(&["foo", "bar"]);
    let installed = HashSet::new();
    assert!(plan_info_query(&cat, 2, &installed).is_none());
    assert!(plan_info_query(&cat, 999, &installed).is_none());
    // The caller renders an empty line sequence for such a position.
    assert_eq!(parse_info(""), Vec::<InfoLine>::new());
}

#[test]
fn installed_position_uses_installed_query_without_debounce() {
    let cat = catalogue_of(&["foo", "bar"]);
    let installed: HashSet<usize> = [1usize].into_iter().collect();
    let q = plan_info_query(&cat, 1, &installed).expect("in range");
    assert_eq!(q.name, "bar");
    assert!(q.installed);
    assert!(!q.debounce);
}

#[test]
fn uninstalled_position_debounces_remote_query() {
    let cat = catalogue_of(&["foo", "bar"]);
    let installed: HashSet<usize> = [1usize].into_iter().collect();
    let q = plan_info_query(&cat, 0, &installed).expect("in range");
    assert_eq!(q.name, "foo");
    assert!(!q.installed);
    assert!(q.debounce);
}

#[test]
fn key_value_lines_split_at_first_colon() {
    let lines = parse_info("Name : firefox\nVersion : 1:2.3-4\n");
    assert_eq!(
        lines,
        vec![
            InfoLine::KeyValue("Name :".to_string(), " firefox".to_string()),
            InfoLine::KeyValue("Version :".to_string(), " 1:2.3-4".to_string()),
        ]
    );
}

#[test]
fn continuation_lines_stay_plain() {
    let lines = parse_info("Depends : a\n  b and c\n");
    assert_eq!(
        lines,
        vec![
            InfoLine::KeyValue("Depends :".to_string(), " a".to_string()),
            InfoLine::Plain("  b and c".to_string()),
        ]
    );
}

#[test]
fn lines_without_separator_are_dropped() {
    let lines = parse_info("no separator here\nKey: v\n");
    assert_eq!(
        lines,
        vec![InfoLine::KeyValue("Key:".to_string(), " v".to_string())]
    );
}

#[test]
fn carriage_returns_are_consumed_with_newlines() {
    let lines = parse_info("Key: v\r\n Plain\r\n");
    assert_eq!(
        lines,
        vec![
            InfoLine::KeyValue("Key:".to_string(), " v".to_string()),
            InfoLine::Plain(" Plain".to_string()),
        ]
    );
}

#[test]
fn final_unterminated_info_line_is_parsed() {
    let lines = parse_info("Key: v");
    assert_eq!(
        lines,
        vec![InfoLine::KeyValue("Key:".to_string(), " v".to_string())]
    );
}
