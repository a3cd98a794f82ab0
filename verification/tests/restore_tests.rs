use xcompress::restore::{
    get_snapshots, resolve_restore_argument, restore_last_segment, select_snapshots, PathSyntax,
    Snapshot, SnapshotParseError,
};
use xcompress::utils::extract_json_array;

fn snap(id: &str, time: &str, paths: &[&str]) -> Snapshot {
    Snapshot {
        short_id: id.to_string(),
        time: time.to_string(),
        paths: paths.iter().map(|p| p.to_string()).collect(),
        total_size_bytes: 0,
    }
}

fn ids(snaps: &[Snapshot]) -> Vec<String> {
    snaps.iter().map(|s| s.short_id.clone()).collect()
}

#[test]
fn extraction_recovers_a_pretty_printed_array() {
    let output = "repository 1a2b opened\n[\n  {\n    \"short_id\": \"ab12xy\"\n  }\n]\n  \n";
    assert_eq!(
        extract_json_array(output),
        Some("[\n  {\n    \"short_id\": \"ab12xy\"\n  }\n]".to_string())
    );
}

#[test]
fn extraction_spans_first_open_to_last_close() {
    assert_eq!(extract_json_array("x[1]\ny[2]z"), Some("[1]\ny[2]".to_string()));
    assert_eq!(extract_json_array("no brackets"), None);
    assert_eq!(extract_json_array("] before ["), None);
    assert_eq!(extract_json_array("[]"), Some("[]".to_string()));
}

#[test]
fn listing_is_decoded_and_sorted_newest_first() {
    let output = "banner\n[{\"short_id\":\"old1\",\"time\":\"2023-01-01T00:00:00Z\",\"paths\":[\"/a\"]},\n {\"short_id\":\"new1\",\"time\":\"2024-06-01T00:00:00Z\",\"paths\":[\"/b\",\"/c\"],\"summary\":{\"total_bytes_processed\":42}},\n {\"short_id\":\"mid1\",\"time\":\"2023-06-01T00:00:00Z\"}]\n";
    let snaps = get_snapshots(output).unwrap();
    assert_eq!(ids(&snaps), vec!["new1", "mid1", "old1"]);
    assert_eq!(snaps[0].paths, vec!["/b".to_string(), "/c".to_string()]);
    assert_eq!(snaps[0].total_size_bytes, 42);
    assert_eq!(snaps[1].paths, Vec::<String>::new());
    assert_eq!(snaps[2].total_size_bytes, 0);
}

#[test]
fn listing_keeps_listed_order_among_equal_times() {
    let output = "[{\"short_id\":\"a\",\"time\":\"t\"},{\"short_id\":\"b\",\"time\":\"t\"},{\"short_id\":\"c\",\"time\":\"u\"}]";
    let snaps = get_snapshots(output).unwrap();
    assert_eq!(ids(&snaps), vec!["c", "a", "b"]);
}

#[test]
fn listing_without_array_is_an_error() {
    assert!(matches!(get_snapshots("nothing here"), Err(SnapshotParseError::NoJsonArray)));
}

#[test]
fn listing_with_bad_json_keeps_the_raw_text() {
    match get_snapshots("intro [not json] outro") {
        Err(SnapshotParseError::InvalidJson { raw, detail }) => {
            assert_eq!(raw, "[not json]");
            assert!(!detail.is_empty());
        }
        other => panic!("unexpected: {:?}", other),
    }
}

#[test]
fn listing_of_items_that_are_no_objects_gives_empty_snapshots() {
    let snaps = get_snapshots("[1, \"x\", null]").unwrap();
    assert_eq!(snaps.len(), 3);
    assert_eq!(snaps[0].short_id, "");
    assert_eq!(snaps[0].time, "");
}

#[test]
fn latest_selects_the_first_snapshot() {
    let snaps = vec![snap("new1", "2024", &[]), snap("old1", "2023", &[])];
    let sel = select_snapshots("  LATEST ", &snaps);
    assert_eq!(ids(&sel.snapshots), vec!["new1"]);
    assert!(sel.not_found.is_empty());
    let none = select_snapshots("latest", &Vec::new());
    assert!(none.snapshots.is_empty());
    assert!(none.not_found.is_empty());
}

#[test]
fn all_selects_every_snapshot_in_order() {
    let snaps = vec![snap("c", "3", &[]), snap("b", "2", &[]), snap("a", "1", &[])];
    let sel = select_snapshots("All", &snaps);
    assert_eq!(ids(&sel.snapshots), vec!["c", "b", "a"]);
    assert!(sel.not_found.is_empty());
}

#[test]
fn unmatched_prefix_is_named_and_does_not_stop_the_selection() {
    let snaps = vec![snap("ab12xy", "2024", &[])];
    let sel = select_snapshots("ab12,zz99", &snaps);
    assert_eq!(ids(&sel.snapshots), vec!["ab12xy"]);
    assert_eq!(sel.not_found, vec!["zz99".to_string()]);
    let sel = select_snapshots("zz99, ab12 ,, ", &snaps);
    assert_eq!(ids(&sel.snapshots), vec!["ab12xy"]);
    assert_eq!(sel.not_found, vec!["zz99".to_string()]);
}

#[test]
fn first_matching_snapshot_wins() {
    let snaps = vec![snap("ab12xy", "2024", &[]), snap("ab12zz", "2023", &[])];
    let sel = select_snapshots("ab12", &snaps);
    assert_eq!(ids(&sel.snapshots), vec!["ab12xy"]);
}

#[test]
fn last_segment_restore_names_the_parent_only() {
    assert_eq!(restore_last_segment("ab12xy", "/a/b/my_app", PathSyntax::Plain), "ab12xy:/a/b");
    assert_eq!(restore_last_segment("ab12xy", "/a/b/my_app/", PathSyntax::Plain), "ab12xy:/a/b");
    assert_eq!(restore_last_segment("ab12xy", "/my_app", PathSyntax::Plain), "ab12xy:/");
    assert_eq!(restore_last_segment("ab12xy", "my_app", PathSyntax::Plain), "ab12xy:");
    assert_eq!(
        restore_last_segment("ab12xy", "D:\\work\\proj\\my_app", PathSyntax::DriveLetters),
        "ab12xy:/D/work/proj"
    );
    assert_eq!(
        restore_last_segment("ab12xy", "D:\\my_app", PathSyntax::DriveLetters),
        "ab12xy:/D"
    );
    assert_eq!(
        restore_last_segment("ab12xy", "a\\b/c", PathSyntax::Plain),
        "ab12xy:a\\b"
    );
}

#[test]
fn subpath_picks_the_first_recorded_path_that_ends_with_it() {
    let s = snap("ab12xy", "2024", &["/x/docs", "/a/b/my_app", "/c/my_app"]);
    let arg = resolve_restore_argument(&s, &Some("my_app".to_string()), PathSyntax::Plain);
    assert_eq!(arg.unwrap(), "ab12xy:/a/b");
    let whole = resolve_restore_argument(&s, &None, PathSyntax::Plain);
    assert_eq!(whole.unwrap(), "ab12xy");
    let missing = resolve_restore_argument(&s, &Some("other".to_string()), PathSyntax::Plain);
    let e = missing.unwrap_err();
    assert_eq!(e.snapshot, "ab12xy");
    assert_eq!(e.subpath, "other");
}
