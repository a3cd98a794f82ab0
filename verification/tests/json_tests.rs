use xcompress::json::JsonValue;
use xcompress::restore::{snapshots_from_json, snapshots_from_parsed, Snapshot, SnapshotParseError};

fn text(s: &str) -> JsonValue {
    JsonValue::Text(s.to_string())
}

fn object(members: Vec<(&str, JsonValue)>) -> JsonValue {
    JsonValue::Object(members.into_iter().map(|(k, v)| (k.to_string(), v)).collect())
}

#[test]
fn member_is_the_first_with_that_key() {
    let doc = object(vec![("a", text("1")), ("b", text("2")), ("a", text("3"))]);
    assert!(matches!(doc.member("a"), Some(JsonValue::Text(s)) if s == "1"));
    assert!(matches!(doc.member("b"), Some(JsonValue::Text(s)) if s == "2"));
    assert!(doc.member("c").is_none());
    assert!(text("a").member("a").is_none());
    assert!(JsonValue::Array(vec![]).member("a").is_none());
}

#[test]
fn values_are_read_by_kind() {
    assert_eq!(text("x").as_text(), Some(&"x".to_string()));
    assert_eq!(JsonValue::Null.as_text(), None);
    assert_eq!(JsonValue::Number(Some(7)).as_unsigned(), Some(7));
    assert_eq!(JsonValue::Number(None).as_unsigned(), None);
    assert_eq!(JsonValue::Bool(true).as_unsigned(), None);
    assert_eq!(JsonValue::Array(vec![JsonValue::Null]).as_items().map(|v| v.len()), Some(1));
    assert!(object(vec![]).as_items().is_none());
}

#[test]
fn snapshot_fields_of_another_kind_count_as_empty() {
    let item = object(vec![
        ("short_id", JsonValue::Number(Some(5))),
        ("time", text("2024-01-01T00:00:00Z")),
        ("paths", JsonValue::Array(vec![text("/a"), JsonValue::Null, text("/b")])),
        ("summary", object(vec![("total_bytes_processed", JsonValue::Number(Some(1024)))])),
    ]);
    assert_eq!(
        Snapshot::from_json(&item),
        Snapshot {
            short_id: "".into(),
            time: "2024-01-01T00:00:00Z".into(),
            paths: vec!["/a".to_string(), "".to_string(), "/b".to_string()],
            total_size_bytes: 1024,
        }
    );
    let bare = object(vec![("paths", text("/a")), ("summary", text("none"))]);
    assert_eq!(
        Snapshot::from_json(&bare),
        Snapshot { short_id: "".into(), time: "".into(), paths: vec![], total_size_bytes: 0 }
    );
}

#[test]
fn document_that_is_no_array_lists_nothing() {
    assert!(snapshots_from_json(&object(vec![("short_id", text("ab12"))])).is_empty());
    assert!(snapshots_from_json(&JsonValue::Null).is_empty());
    let two = JsonValue::Array(vec![
        object(vec![("short_id", text("a"))]),
        object(vec![("short_id", text("b"))]),
    ]);
    let ids: Vec<String> = snapshots_from_json(&two).into_iter().map(|s| s.short_id).collect();
    assert_eq!(ids, vec!["a", "b"]);
}

#[test]
fn decoded_listing_is_ordered_and_errors_keep_the_raw_text() {
    let doc = JsonValue::Array(vec![
        object(vec![("short_id", text("old")), ("time", text("2023"))]),
        object(vec![("short_id", text("new")), ("time", text("2024"))]),
    ]);
    let snaps = snapshots_from_parsed("[..]".to_string(), Ok(doc)).unwrap();
    let ids: Vec<String> = snaps.into_iter().map(|s| s.short_id).collect();
    assert_eq!(ids, vec!["new", "old"]);
    assert_eq!(
        snapshots_from_parsed("[oops".to_string(), Err("expected value".to_string())),
        Err(SnapshotParseError::InvalidJson { raw: "[oops".into(), detail: "expected value".into() })
    );
}
