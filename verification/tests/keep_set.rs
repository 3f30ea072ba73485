use search_segment_gc::keep_set::{
    search_segment_keep_set, KeepSetError, Revision, RevisionPair,
};
use search_segment_gc::string_set::StringSet;
use search_segment_gc::value::{collect_object_strings, collect_strings, ConvexObject, ConvexValue};

fn object(fields: Vec<(&str, ConvexValue)>) -> ConvexObject {
    ConvexObject {
        fields: fields.into_iter().map(|(k, v)| (k.to_owned(), v)).collect(),
    }
}

fn string(s: &str) -> ConvexValue {
    ConvexValue::String(s.to_owned())
}

fn words(set: &StringSet) -> Vec<&str> {
    set.as_slice().iter().map(|s| s.as_str()).collect()
}

fn segment(key: &str) -> ConvexObject {
    object(vec![("segment_key", string(key))])
}

fn pair(rev: Option<ConvexObject>, prev: Option<Option<ConvexObject>>) -> RevisionPair {
    RevisionPair {
        id: "doc".to_owned(),
        rev: Revision { ts: 20, document: rev },
        prev_rev: prev.map(|document| Revision { ts: 10, document }),
    }
}

#[test]
fn collects_every_nested_string_and_nothing_else() {
    let nested = object(vec![
        ("id_tracker_key", string("tracker-1")),
        (
            "segments",
            ConvexValue::Array(vec![
                ConvexValue::Object(object(vec![("segment_key", string("seg-2"))])),
                string("loose-string"),
                ConvexValue::Null,
            ]),
        ),
    ]);
    let root = object(vec![
        ("segment_key", string("seg-1")),
        ("size", ConvexValue::Int64(42)),
        ("flag", ConvexValue::Boolean(true)),
        ("nested", ConvexValue::Object(nested)),
    ]);
    let mut strings = StringSet::new();
    collect_object_strings(&root, &mut strings);
    let mut expected = vec!["seg-1", "tracker-1", "seg-2", "loose-string"];
    expected.sort();
    assert_eq!(words(&strings), expected);
}

#[test]
fn values_without_strings_add_nothing() {
    let mut strings = StringSet::new();
    strings.insert("kept".to_owned());
    for value in [
        ConvexValue::Null,
        ConvexValue::Int64(-1),
        ConvexValue::Float64(0x3ff0_0000_0000_0000),
        ConvexValue::Boolean(false),
        ConvexValue::Bytes(b"seg-1".to_vec()),
        ConvexValue::Array(vec![]),
        ConvexValue::Object(object(vec![])),
    ] {
        collect_strings(&value, &mut strings);
    }
    assert_eq!(words(&strings), vec!["kept"]);
}

#[test]
fn renaming_a_field_unprotects_nothing() {
    let mut before = StringSet::new();
    let mut after = StringSet::new();
    collect_object_strings(&segment("seg-1"), &mut before);
    collect_object_strings(&object(vec![("renamed", string("seg-1"))]), &mut after);
    assert_eq!(words(&before), words(&after));
}

#[test]
fn a_string_set_holds_each_string_once() {
    let mut set = StringSet::new();
    for s in ["m", "z", "a", "m", "", "aa", "z"] {
        set.insert(s.to_owned());
    }
    assert_eq!(words(&set), vec!["", "a", "aa", "m", "z"]);
    assert_eq!(set.len(), 5);
    assert!(set.contains("aa"));
    assert!(set.contains(""));
    assert!(!set.contains("b"));
    assert!(!set.contains("zz"));
}

#[test]
fn the_keep_set_holds_snapshot_revisions_and_replaced_revisions() {
    let scan = search_segment_keep_set(5, 30).unwrap();
    let scan = scan.snapshot_document(&segment("current"), true).unwrap();
    let scan = scan.snapshot_document(&segment("other"), true).unwrap();
    let scan = scan
        .revision_pair(&pair(
            Some(segment("current")),
            Some(Some(segment("just-replaced"))),
        ))
        .unwrap();
    // A new document, and a deleted one.
    let scan = scan
        .revision_pair(&pair(Some(segment("created")), None))
        .unwrap();
    let scan = scan
        .revision_pair(&pair(None, Some(Some(segment("deleted")))))
        .unwrap();
    assert_eq!(scan.snapshot_documents(), 2);
    assert_eq!(scan.log_revisions(), 5);
    let keep = scan.finish();
    assert_eq!(
        words(&keep.strings),
        vec!["created", "current", "deleted", "just-replaced", "other"]
    );
    assert_eq!(keep.snapshot_documents, 2);
    assert_eq!(keep.log_revisions, 5);
    assert_eq!(keep.floor, 5);
    assert_eq!(keep.latest_ts, 30);
}

#[test]
fn an_empty_scan_keeps_nothing() {
    let keep = search_segment_keep_set(7, 7).unwrap().finish();
    assert_eq!(keep.strings.len(), 0);
    assert_eq!(keep.snapshot_documents, 0);
    assert_eq!(keep.log_revisions, 0);
}

#[test]
fn a_floor_ahead_of_the_snapshot_is_an_error() {
    assert_eq!(
        search_segment_keep_set(8, 7).err(),
        Some(KeepSetError::FloorAheadOfSnapshot {
            floor: 8,
            latest_ts: 7
        })
    );
}

#[test]
fn unreadable_metadata_stops_the_scan() {
    let scan = search_segment_keep_set(0, 1).unwrap();
    let scan = scan.snapshot_document(&segment("fine"), true).unwrap();
    assert_eq!(
        scan.snapshot_document(&segment("strange"), false).err(),
        Some(KeepSetError::UnreadableMetadata)
    );
}

#[test]
fn a_replaced_revision_without_its_value_stops_the_scan() {
    let scan = search_segment_keep_set(0, 1).unwrap();
    assert_eq!(
        scan.revision_pair(&pair(Some(segment("new")), Some(None))).err(),
        Some(KeepSetError::ReplacedValueGone {
            id: "doc".to_owned(),
            ts: 20,
            replaced_ts: 10
        })
    );
}
