use parui::catalogue::Catalogue;

#[test]
fn scenario_local_only_five_names() {
    let local = Some(b"one\ntwo\nthree\nfour\nfive\n".to_vec());
    let cat = Catalogue::build(&local, &None);
    assert_eq!(cat.len(), 5);
    assert_eq!(cat.get(0), "one");
    assert_eq!(cat.get(4), "five");
}

#[test]
fn both_sources_merge_in_order() {
    let local = Some(b"a\nb\n".to_vec());
    let remote = Some(b"c\nd\n".to_vec());
    let cat = Catalogue::build(&local, &remote);
    assert_eq!(cat.len(), 4);
    assert_eq!(cat.get(0), "a");
    assert_eq!(cat.get(2), "c");
    assert_eq!(cat.get(3), "d");
}

#[test]
fn both_sources_absent_gives_empty_catalogue() {
    let cat = Catalogue::build(&None, &None);
    assert_eq!(cat.len(), 0);
}

#[test]
fn empty_lines_are_discarded() {
    let local = Some(b"a\n\n\nb\n".to_vec());
    let cat = Catalogue::build(&local, &None);
    assert_eq!(cat.len(), 2);
    assert_eq!(cat.get(0), "a");
    assert_eq!(cat.get(1), "b");
}

#[test]
fn invalid_utf8_lines_are_skipped() {
    let local = Some(vec![b'o', b'k', b'\n', 0xff, 0xfe, b'\n', b'y', b'\n']);
    let cat = Catalogue::build(&local, &None);
    assert_eq!(cat.len(), 2);
    assert_eq!(cat.get(0), "ok");
    assert_eq!(cat.get(1), "y");
}

#[test]
fn final_unterminated_line_is_kept() {
    let local = Some(b"a\nb".to_vec());
    let cat = Catalogue::build(&local, &None);
    assert_eq!(cat.len(), 2);
    assert_eq!(cat.get(1), "b");
}

#[test]
fn push_appends_at_stable_positions() {
    let mut cat = Catalogue::new();
    cat.push("first");
    cat.push("second");
    assert_eq!(cat.len(), 2);
    assert_eq!(cat.get(0), "first");
    assert_eq!(cat.get(1), "second");
}

#[test]
fn remote_only_source_builds_the_catalogue() {
    let remote = Some(b"aur1\naur2\n".to_vec());
    let cat = Catalogue::build(&None, &remote);
    assert_eq!(cat.len(), 2);
    assert_eq!(cat.get(0), "aur1");
    assert_eq!(cat.get(1), "aur2");
}
