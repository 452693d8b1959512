use parui::catalogue::Catalogue;
use parui::matcher::Matcher;
use parui::pattern::Pattern;
use parui::search::search;
use parui::shown::Shown;

fn catalogue_of(names: &[&str]) -> Catalogue {
    let mut cat = Catalogue::new();
    for name in names {
        cat.push(name);
    }
    cat
}

#[test]
fn scenario_foo_query_shows_two() {
    let cat = catalogue_of(&["foo", "foobar", "baz"]);
    let shown = search("foo", &cat);
    assert_eq!(shown, Shown::Few(vec![0, 1]));
}

#[test]
fn empty_query_shows_all() {
    let cat = catalogue_of(&["foo", "foobar", "baz"]);
    assert_eq!(search("", &cat), Shown::All);
}

#[test]
fn whitespace_query_shows_all() {
    let cat = catalogue_of(&["foo", "foobar", "baz"]);
    assert_eq!(search("   ", &cat), Shown::All);
    assert_eq!(search(" \t ", &cat), Shown::All);
}

#[test]
fn invalid_regex_falls_back_to_substring() {
    let cat = catalogue_of(&["a(b", "ab", "x(y"]);
    // "(" is not a valid regex; it must be treated as a literal substring.
    let shown = search("(", &cat);
    assert_eq!(shown, Shown::Few(vec![0, 2]));
}

#[test]
fn unbalanced_paren_query_does_not_panic() {
    let cat = catalogue_of(&["alpha", "beta"]);
    let shown = search("(unclosed", &cat);
    assert_eq!(shown, Shown::Few(vec![]));
}

#[test]
fn results_are_ordered_and_duplicate_free() {
    let cat = catalogue_of(&["foo", "bar", "od", "xo", "zzz"]);
    let shown = search("o", &cat);
    match shown {
        Shown::Few(v) => {
            assert_eq!(v, vec![0, 2, 3]);
            for w in v.windows(2) {
                assert!(w[0] < w[1]);
            }
        }
        Shown::All => panic!("expected an explicit result list"),
    }
}

#[test]
fn valid_regex_is_used_as_regex() {
    // "fo+" as a literal substring occurs nowhere, but as a regex it
    // matches "foo" and "fol" does not.
    let cat = catalogue_of(&["foo", "fo", "bar"]);
    let shown = search("fo+", &cat);
    assert_eq!(shown, Shown::Few(vec![0, 1]));
}

#[test]
fn anchored_regex_matches_within() {
    let cat = catalogue_of(&["foobar", "xfoo"]);
    let shown = search("^foo", &cat);
    assert_eq!(shown, Shown::Few(vec![0]));
}

#[test]
fn query_is_trimmed_before_matching() {
    let cat = catalogue_of(&["foo", "foobar", "baz"]);
    assert_eq!(search("  foo  ", &cat), Shown::Few(vec![0, 1]));
}

#[test]
fn search_on_empty_catalogue_finds_nothing() {
    let cat = Catalogue::new();
    assert_eq!(search("foo", &cat), Shown::Few(vec![]));
    assert_eq!(search("", &cat), Shown::All);
}

#[test]
fn matcher_trait_substring_and_regex() {
    let empty = String::new();
    assert!(empty.matches("anything"));
    let q = String::from("oo");
    assert!(q.matches("foo"));
    assert!(!q.matches("bar"));

    let p = Pattern::compile("ba.").expect("valid pattern");
    assert!(p.matches("a bat"));
    assert!(!p.matches("ba"));
    assert!(Pattern::compile("(").is_none());
}
