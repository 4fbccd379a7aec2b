use module_loader::paths::{filter_module_paths, has_module_extension};

fn bytes(s: &str) -> Vec<u8> {
    s.as_bytes().to_vec()
}

#[test]
fn plain_module_file_matches() {
    assert!(has_module_extension(&bytes("x.mv")));
    assert!(has_module_extension(&bytes("dir/x.mv")));
    assert!(has_module_extension(&bytes("/a/b/coin.mv")));
}

#[test]
fn dot_heavy_names() {
    assert!(has_module_extension(&bytes("a.b.mv")));
    assert!(has_module_extension(&bytes("a..mv")));
    assert!(has_module_extension(&bytes(".hidden.mv")));
}

#[test]
fn hidden_file_without_stem_does_not_match() {
    assert!(!has_module_extension(&bytes(".mv")));
    assert!(!has_module_extension(&bytes("dir/.mv")));
}

#[test]
fn other_extensions_do_not_match() {
    assert!(!has_module_extension(&bytes("x.move")));
    assert!(!has_module_extension(&bytes("x.mvv")));
    assert!(!has_module_extension(&bytes("xmv")));
    assert!(!has_module_extension(&bytes("x.mv.bak")));
    assert!(!has_module_extension(&bytes("")));
}

#[test]
fn directory_like_paths_do_not_match() {
    assert!(!has_module_extension(&bytes("x.mv/")));
    assert!(!has_module_extension(&bytes("dir.mv/file.txt")));
}

#[test]
fn filtering_no_matches_yields_empty() {
    let paths = vec![bytes("a.txt"), bytes("b/c.move"), bytes("d/")];
    assert!(filter_module_paths(&paths).is_empty());
    assert!(filter_module_paths(&Vec::new()).is_empty());
}

#[test]
fn filtering_two_directories_of_listings_keeps_exactly_the_module_files() {
    // three module files under one directory, two under another, other
    // entries mixed in between
    let paths = vec![
        bytes("/dir/one/a.mv"),
        bytes("/dir/one/readme.md"),
        bytes("/dir/one/b.mv"),
        bytes("/dir/one/c.mv"),
        bytes("/other/two/d.mv"),
        bytes("/other/two/notes.txt"),
        bytes("/other/two/e.mv"),
    ];
    let kept = filter_module_paths(&paths);
    assert_eq!(kept.len(), 5);
    assert_eq!(kept[0], bytes("/dir/one/a.mv"));
    assert_eq!(kept[1], bytes("/dir/one/b.mv"));
    assert_eq!(kept[2], bytes("/dir/one/c.mv"));
    assert_eq!(kept[3], bytes("/other/two/d.mv"));
    assert_eq!(kept[4], bytes("/other/two/e.mv"));
}
