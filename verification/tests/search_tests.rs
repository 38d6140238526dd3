use rmenu::index::{AppEntry, AppIndex};
use rmenu::matching::search;

fn small_index() -> AppIndex {
    let mut idx = AppIndex::new();
    idx.insert("firefox".to_string(), "/usr/bin/firefox".to_string());
    idx.insert("find".to_string(), "/usr/bin/find".to_string());
    idx.insert("foo".to_string(), "/bin/foo".to_string());
    idx
}

#[test]
fn query_fi_lists_matches_lexicographically() {
    let idx = small_index();
    let r = search(&idx, "fi", 10);
    assert_eq!(r.len(), 10);
    assert_eq!(r[0].name, "find");
    assert_eq!(r[0].path, "/usr/bin/find");
    assert_eq!(r[1].name, "firefox");
    assert_eq!(r[1].path, "/usr/bin/firefox");
    for e in r.iter().skip(2) {
        assert!(e.name.is_empty());
        assert!(e.path.is_empty());
    }
}

#[test]
fn empty_query_matches_everything_and_pads() {
    let idx = small_index();
    let r = search(&idx, "", 5);
    assert_eq!(r.len(), 5);
    assert_eq!(r[0].name, "find");
    assert_eq!(r[1].name, "firefox");
    assert_eq!(r[2].name, "foo");
    assert!(r[3].name.is_empty());
    assert!(r[4].name.is_empty());
}

#[test]
fn capacity_keeps_the_lexicographically_smallest() {
    let idx = small_index();
    let r = search(&idx, "", 2);
    assert_eq!(r.len(), 2);
    assert_eq!(r[0].name, "find");
    assert_eq!(r[1].name, "firefox");
}

#[test]
fn containment_is_case_sensitive() {
    let idx = small_index();
    let r = search(&idx, "Fi", 3);
    assert!(r[0].name.is_empty());
    assert!(r[1].name.is_empty());
    assert!(r[2].name.is_empty());
}

#[test]
fn containment_is_not_anchored() {
    let idx = small_index();
    let r = search(&idx, "nd", 3);
    assert_eq!(r[0].name, "find");
    assert!(r[1].name.is_empty());
}

#[test]
fn no_match_gives_all_placeholders() {
    let idx = small_index();
    let r = search(&idx, "zzz", 4);
    assert_eq!(r.len(), 4);
    for e in &r {
        assert!(e.name.is_empty());
    }
}

#[test]
fn capacity_zero_gives_empty_list() {
    let idx = small_index();
    let r = search(&idx, "", 0);
    assert!(r.is_empty());
}

#[test]
fn insert_last_wins_on_name_collision() {
    let mut idx = AppIndex::new();
    idx.insert("cat".to_string(), "/usr/bin/cat".to_string());
    idx.insert("cat".to_string(), "/opt/other/cat".to_string());
    assert_eq!(idx.lookup(&"cat".to_string()), Some("/opt/other/cat".to_string()));
    let r = search(&idx, "cat", 3);
    assert_eq!(r[0].name, "cat");
    assert_eq!(r[0].path, "/opt/other/cat");
    assert!(r[1].name.is_empty());
}

#[test]
fn lookup_of_absent_name_is_none() {
    let idx = small_index();
    assert_eq!(idx.lookup(&"bash".to_string()), None);
}

#[test]
fn insert_all_respects_scan_order() {
    let mut idx = AppIndex::new();
    idx.insert_all(vec![
        AppEntry { name: "x".to_string(), path: "/a/x".to_string() },
        AppEntry { name: "y".to_string(), path: "/a/y".to_string() },
        AppEntry { name: "x".to_string(), path: "/b/x".to_string() },
    ]);
    assert_eq!(idx.lookup(&"x".to_string()), Some("/b/x".to_string()));
    assert_eq!(idx.lookup(&"y".to_string()), Some("/a/y".to_string()));
}
