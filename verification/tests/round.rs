use search_segment_gc::config::{SearchSegmentGcConfig, SearchSegmentGcMode};
use search_segment_gc::digest::{
    as_hex, checked_orphan_digest, orphan_digest, orphan_digest_input,
};
use search_segment_gc::keep_set::{search_segment_keep_set, Revision, RevisionPair};
use search_segment_gc::listing::{sort_by_key, ObjectListing};
use search_segment_gc::orphans::{select_orphans, standing, OrphanSelection, Standing};
use search_segment_gc::round::{
    collect_orphaned_search_segments, keep_set_covers_storage, RoundError, RoundOutcome,
    SearchSegmentGcRound, SearchSegmentGcSummary, LOGGED_KEY_SAMPLE,
};
use search_segment_gc::string_set::StringSet;
use search_segment_gc::time::{Duration, SystemTime};
use search_segment_gc::value::{ConvexObject, ConvexValue};

fn system_now() -> SystemTime {
    let since = std::time::SystemTime::now()
        .duration_since(std::time::UNIX_EPOCH)
        .unwrap();
    SystemTime {
        nanos: since.as_nanos() as i128,
    }
}

fn before(now: SystemTime, age: Duration) -> SystemTime {
    SystemTime {
        nanos: now.nanos - age.nanos as i128,
    }
}

fn listing(k: &str, age: Duration, now: SystemTime) -> ObjectListing {
    ObjectListing {
        key: k.to_owned(),
        last_modified: before(now, age),
        size: 10,
    }
}

fn set(words: &[&str]) -> StringSet {
    let mut strings = StringSet::new();
    for word in words {
        strings.insert((*word).to_owned());
    }
    strings
}

fn keys(objects: &[ObjectListing]) -> Vec<&str> {
    objects.iter().map(|o| o.key.as_str()).collect()
}

const HOUR: u64 = 3600;

fn round(mode: &str, max_deletes: usize, now: SystemTime) -> SearchSegmentGcRound {
    let config = SearchSegmentGcConfig::new(mode, Duration::from_secs(HOUR), max_deletes).unwrap();
    collect_orphaned_search_segments(config, now).unwrap()
}

/// Four orphans of 10 bytes, a referenced object and a young one.
fn objects(now: SystemTime) -> Vec<ObjectListing> {
    let old = Duration::from_secs(2 * HOUR);
    vec![
        listing("d", old, now),
        listing("b", old, now),
        listing("kept", old, now),
        listing("c", old, now),
        listing("young", Duration::from_secs(60), now),
        listing("a", old, now),
    ]
}

/// Carry out a round; the deletes of the keys in `failing` fail.
fn carry_out(
    round: SearchSegmentGcRound,
    keep: &StringSet,
    listed: Vec<ObjectListing>,
    failing: &[&str],
) -> (Vec<String>, SearchSegmentGcSummary) {
    assert!(round.can_count_bytes(keep, &listed));
    let mut plan = round.plan(keep, listed);
    let mut attempted = Vec::new();
    while let Some(object) = plan.next_delete() {
        let key = object.key.clone();
        let succeeded = !failing.contains(&key.as_str());
        attempted.push(key);
        plan = plan.record(succeeded);
    }
    (attempted, plan.finish())
}

#[test]
fn select_orphans_protects_referenced_and_young_objects() {
    let now = system_now();
    let min_age = Duration::from_secs(3600);
    let keep = set(&["referenced-old", "referenced-young"]);
    let objects = vec![
        listing("orphan-old-b", Duration::from_secs(7200), now),
        listing("referenced-old", Duration::from_secs(7200), now),
        listing("orphan-young", Duration::from_secs(60), now),
        listing("referenced-young", Duration::from_secs(60), now),
        listing("orphan-old-a", Duration::from_secs(7200), now),
        // Exactly at the age floor counts as old enough.
        listing("orphan-boundary", min_age, now),
    ];
    let selection = select_orphans(objects, &keep, now, min_age);
    assert_eq!(selection.referenced, 2);
    assert_eq!(selection.too_young, 1);
    let orphan_keys: Vec<&str> = selection.orphans.iter().map(|o| &*o.key).collect();
    assert_eq!(
        orphan_keys,
        vec!["orphan-boundary", "orphan-old-a", "orphan-old-b"]
    );
}

#[test]
fn select_orphans_never_deletes_objects_modified_in_the_future() {
    let now = system_now();
    let keep = StringSet::new();
    let future = ObjectListing {
        key: "from-the-future".to_owned(),
        last_modified: SystemTime {
            nanos: now.nanos + Duration::from_secs(5).nanos as i128,
        },
        size: 1,
    };
    let selection = select_orphans(vec![future], &keep, now, Duration::from_secs(1));
    assert!(selection.orphans.is_empty());
    assert_eq!(selection.too_young, 1);
}

#[test]
fn keep_set_must_cover_a_non_empty_listing() {
    // Nothing in storage: nothing to protect.
    assert!(keep_set_covers_storage(0, 0));
    // Storage has objects and metadata references at least one of them.
    assert!(keep_set_covers_storage(10, 1));
    // Storage has objects but metadata references none of them: the
    // storage and the metadata do not describe each other; refuse.
    assert!(!keep_set_covers_storage(10, 0));
}

#[test]
fn orphan_digest_depends_only_on_the_sorted_keys() {
    let now = system_now();
    let zero = Duration { nanos: 0 };
    let a = vec![listing("k1", zero, now), listing("k2", zero, now)];
    let mut b = vec![
        ObjectListing {
            key: "k1".to_owned(),
            last_modified: before(now, Duration::from_secs(99)),
            size: 12345,
        },
        listing("k2", zero, now),
    ];
    assert_eq!(orphan_digest(&a), orphan_digest(&b));
    b.push(listing("k3", zero, now));
    assert_ne!(orphan_digest(&a), orphan_digest(&b));
    assert_eq!(orphan_digest(&[]), orphan_digest(&[]));
}

#[test]
fn the_digest_is_sha256_in_lower_case_hex() {
    assert_eq!(
        orphan_digest(&[]),
        "e3b0c44298fc1c149afbf4c8996fb92427ae41e4649b934ca495991b7852b855"
    );
    let now = SystemTime { nanos: 0 };
    let zero = Duration { nanos: 0 };
    // The digest of "\n" and that of "hello\n".
    assert_eq!(
        orphan_digest(&[listing("", zero, now)]),
        "01ba4719c80b6fe911b091a7c05124b64eeece964e09c058ef8f9805daca546b"
    );
    assert_eq!(
        orphan_digest(&[listing("hello", zero, now)]),
        "5891b5b522d5df086d0ff0b110fbd9d21bb4fc7163af34d08286a2e846f6be03"
    );
    assert_eq!(
        checked_orphan_digest(&[listing("hello", zero, now)]),
        Some(orphan_digest(&[listing("hello", zero, now)]))
    );
}

#[test]
fn each_key_is_digested_as_a_line() {
    let now = SystemTime { nanos: 0 };
    let zero = Duration { nanos: 0 };
    let two = [listing("k1", zero, now), listing("\u{e9}", zero, now)];
    assert_eq!(orphan_digest_input(&two), b"k1\n\xc3\xa9\n".to_vec());
    let joined = [listing("k1\u{e9}", zero, now)];
    assert_ne!(orphan_digest_input(&two), orphan_digest_input(&joined));
    assert_eq!(as_hex(&[0x00, 0x0f, 0xa5, 0xff]), "000fa5ff");
}

#[test]
fn the_standing_of_an_object() {
    let now = SystemTime { nanos: 1_000 };
    let age = |nanos: u128| Duration { nanos };
    let keep = set(&["k"]);
    assert_eq!(
        standing(&listing("k", age(900), now), &keep, now, age(100)),
        Standing::Referenced
    );
    assert_eq!(
        standing(&listing("x", age(100), now), &keep, now, age(100)),
        Standing::Orphan
    );
    assert_eq!(
        standing(&listing("x", age(99), now), &keep, now, age(100)),
        Standing::TooYoung
    );
}

#[test]
fn an_empty_listing_selects_nothing() {
    let now = SystemTime { nanos: 0 };
    let selection = select_orphans(vec![], &set(&["k"]), now, Duration { nanos: 0 });
    assert_eq!(selection, OrphanSelection::default());
    assert_eq!(selection.referenced, 0);
    assert_eq!(selection.too_young, 0);
    assert!(selection.orphans.is_empty());
}

#[test]
fn every_listed_object_is_counted_once() {
    let now = system_now();
    let selection = select_orphans(
        objects(now),
        &set(&["kept"]),
        now,
        Duration::from_secs(HOUR),
    );
    assert_eq!(
        (selection.referenced, selection.too_young, selection.orphans.len()),
        (1, 1, 4)
    );
}

#[test]
fn sorting_keeps_the_order_of_equal_keys() {
    let object = |key: &str, size: u64| ObjectListing {
        key: key.to_owned(),
        last_modified: SystemTime { nanos: 0 },
        size,
    };
    let sorted = sort_by_key(vec![
        object("b", 1),
        object("a", 2),
        object("b", 3),
        object("", 4),
        object("a", 5),
        object("\u{e9}", 6),
        object("z", 7),
    ]);
    let sizes: Vec<u64> = sorted.iter().map(|o| o.size).collect();
    assert_eq!(sizes, vec![4, 2, 5, 1, 3, 7, 6]);
}

#[test]
fn the_order_of_the_listing_does_not_matter() {
    let now = system_now();
    let mut reversed = objects(now);
    reversed.reverse();
    let keep = set(&["kept"]);
    let age = Duration::from_secs(HOUR);
    let a = select_orphans(objects(now), &keep, now, age);
    let b = select_orphans(reversed, &keep, now, age);
    assert_eq!(a, b);
    assert_eq!(orphan_digest(&a.orphans), orphan_digest(&b.orphans));
}

#[test]
fn mode_off_begins_no_round() {
    let now = system_now();
    let config = SearchSegmentGcConfig::new("off", Duration::from_secs(HOUR), 5).unwrap();
    assert_eq!(
        collect_orphaned_search_segments(config, now).err(),
        Some(RoundError::ModeOff)
    );
}

#[test]
fn a_delete_round_deletes_the_orphans_in_key_order() {
    let now = system_now();
    let (attempted, summary) =
        carry_out(round("delete", 100, now), &set(&["kept"]), objects(now), &[]);
    assert_eq!(attempted, vec!["a", "b", "c", "d"]);
    assert_eq!(
        summary,
        SearchSegmentGcSummary {
            mode: SearchSegmentGcMode::Delete,
            outcome: RoundOutcome::Completed,
            listed: 6,
            referenced: 1,
            too_young: 1,
            orphans: 4,
            orphan_bytes: 40,
            deleted: 4,
            deleted_bytes: 40,
            failed: 0,
            deferred: 0,
        }
    );
}

#[test]
fn the_cap_counts_failed_deletes_and_defers_the_rest() {
    let now = system_now();
    let (attempted, summary) = carry_out(
        round("delete", 3, now),
        &set(&["kept"]),
        objects(now),
        &["b"],
    );
    assert_eq!(attempted, vec!["a", "b", "c"]);
    assert_eq!(summary.deleted, 2);
    assert_eq!(summary.deleted_bytes, 20);
    assert_eq!(summary.failed, 1);
    assert_eq!(summary.deferred, 1);
    assert_eq!(summary.orphans, 4);
    assert_eq!(summary.orphan_bytes, 40);
}

#[test]
fn a_cap_of_zero_defers_everything() {
    let now = system_now();
    let (attempted, summary) =
        carry_out(round("delete", 0, now), &set(&["kept"]), objects(now), &[]);
    assert!(attempted.is_empty());
    assert_eq!(summary.deferred, 4);
}

#[test]
fn a_dry_run_reports_and_deletes_nothing() {
    let now = system_now();
    let (attempted, summary) =
        carry_out(round("dry_run", 100, now), &set(&["kept"]), objects(now), &[]);
    assert!(attempted.is_empty());
    assert_eq!(
        summary,
        SearchSegmentGcSummary {
            mode: SearchSegmentGcMode::DryRun,
            outcome: RoundOutcome::Completed,
            listed: 6,
            referenced: 1,
            too_young: 1,
            orphans: 4,
            orphan_bytes: 40,
            deleted: 0,
            deleted_bytes: 0,
            failed: 0,
            deferred: 0,
        }
    );
}

#[test]
fn a_dry_run_shows_what_would_be_deleted() {
    let now = system_now();
    let keep = set(&["kept"]);
    let dry = round("dry_run", 1, now).plan(&keep, objects(now));
    let wet = round("delete", 9, now).plan(&keep, objects(now));
    assert_eq!(dry.orphans(), wet.orphans());
    assert_eq!(dry.outcome(), wet.outcome());
}

#[test]
fn a_round_refuses_storage_that_metadata_does_not_describe() {
    let now = system_now();
    for mode in ["dry_run", "delete"] {
        let (attempted, summary) =
            carry_out(round(mode, 100, now), &set(&["elsewhere"]), objects(now), &[]);
        assert!(attempted.is_empty());
        assert_eq!(summary.outcome, RoundOutcome::Refused);
        assert_eq!(summary.orphans, 5);
        assert_eq!(summary.orphan_bytes, 50);
        assert_eq!((summary.deleted, summary.failed, summary.deferred), (0, 0, 0));
    }
}

#[test]
fn empty_storage_is_not_refused() {
    let now = system_now();
    let (attempted, summary) = carry_out(round("delete", 100, now), &set(&[]), vec![], &[]);
    assert!(attempted.is_empty());
    assert_eq!(summary.outcome, RoundOutcome::Completed);
    assert_eq!(summary.listed, 0);
}

#[test]
fn a_running_build_holds_all_deletes() {
    let now = system_now();
    let keep = set(&["kept"]);
    let running = round("delete", 100, now).observe_builds(Some(now));
    let (attempted, summary) = carry_out(running, &keep, objects(now), &[]);
    assert!(attempted.is_empty());
    assert_eq!((summary.deleted, summary.failed, summary.deferred), (0, 0, 4));
    // One that starts later uploads objects that are too young, and no build
    // holds nothing.
    let later = SystemTime {
        nanos: now.nanos + 1,
    };
    for oldest in [Some(later), None] {
        let free = round("delete", 100, now).observe_builds(oldest);
        let (attempted, _) = carry_out(free, &keep, objects(now), &[]);
        assert_eq!(attempted.len(), 4);
    }
}

#[test]
fn a_sample_of_the_orphans_is_logged() {
    let now = system_now();
    let mut listed = vec![listing("kept", Duration::from_secs(HOUR), now)];
    for i in 0..60u64 {
        listed.push(listing(
            &format!("orphan-{i:02}"),
            Duration::from_secs(HOUR + i),
            now,
        ));
    }
    let plan = round("dry_run", 1, now).plan(&set(&["kept"]), listed);
    let logged = plan.logged_orphans();
    assert_eq!(logged.len(), LOGGED_KEY_SAMPLE);
    assert_eq!(logged.len(), 50);
    assert_eq!(logged[7].key, "orphan-07");
    assert_eq!(logged[7].size, 10);
    assert_eq!(logged[7].age_seconds, 3607);

    let few = round("dry_run", 1, now).plan(&set(&["kept"]), objects(now));
    assert_eq!(few.logged_orphans().len(), 4);
    assert_eq!(keys(few.orphans()), vec!["a", "b", "c", "d"]);
}

#[test]
fn bytes_that_cannot_be_counted_are_noticed() {
    let now = system_now();
    let mut listed = objects(now);
    let keep = set(&["kept"]);
    listed[0].size = u64::MAX - 30;
    assert!(round("delete", 1, now).can_count_bytes(&keep, &listed));
    listed[0].size = u64::MAX - 29;
    assert!(!round("delete", 1, now).can_count_bytes(&keep, &listed));
    // Only orphans count.
    listed[0].key = "kept".to_owned();
    assert!(round("delete", 1, now).can_count_bytes(&keep, &listed));
}

#[test]
fn outcomes_have_names() {
    assert_eq!(RoundOutcome::Completed.as_str(), "completed");
    assert_eq!(RoundOutcome::Refused.as_str(), "refused");
}

#[test]
fn segments_of_retained_revisions_survive_a_round() {
    let document = |key: &str| ConvexObject {
        fields: vec![("key".to_owned(), ConvexValue::String(key.to_owned()))],
    };
    let scan = search_segment_keep_set(1, 9).unwrap();
    let scan = scan.snapshot_document(&document("a"), true).unwrap();
    let keep = scan
        .revision_pair(&RevisionPair {
            id: "index".to_owned(),
            rev: Revision {
                ts: 5,
                document: Some(document("b")),
            },
            prev_rev: Some(Revision {
                ts: 0,
                document: Some(document("c")),
            }),
        })
        .unwrap()
        .finish();
    let now = system_now();
    let (attempted, summary) =
        carry_out(round("delete", 100, now), &keep.strings, objects(now), &[]);
    assert_eq!(attempted, vec!["d", "kept"]);
    assert_eq!(summary.referenced, 3);
}

#[test]
fn recent_uploads_survive_a_round_with_any_accepted_age() {
    let now = system_now();
    let config = SearchSegmentGcConfig::new("delete", Duration::from_secs(600), 100).unwrap();
    let round = collect_orphaned_search_segments(config, now).unwrap();
    let listed = vec![
        listing("kept", Duration::from_secs(9), now),
        listing("just-uploaded", Duration::from_secs(599), now),
        listing("old", Duration::from_secs(600), now),
    ];
    let (attempted, _) = carry_out(round, &set(&["kept"]), listed, &[]);
    assert_eq!(attempted, vec!["old"]);
}

#[test]
fn more_references_and_higher_ages_make_fewer_orphans() {
    let now = system_now();
    let orphans = |keep: &[&str], age: u64| -> usize {
        select_orphans(objects(now), &set(keep), now, Duration::from_secs(age))
            .orphans
            .len()
    };
    assert_eq!(orphans(&["kept"], HOUR), 4);
    assert_eq!(orphans(&["kept", "a"], HOUR), 3);
    assert_eq!(orphans(&["kept"], 60), 5);
    assert_eq!(orphans(&["kept"], 2 * HOUR + 1), 0);
}
