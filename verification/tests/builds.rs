use search_segment_gc::builds::ActiveSearchIndexBuilds;
use search_segment_gc::time::{Duration, SystemTime};

fn at(secs: u64) -> SystemTime {
    SystemTime {
        nanos: Duration::from_secs(secs).nanos as i128,
    }
}

#[test]
fn registrations_end_when_their_guard_drops() {
    let mut registry = ActiveSearchIndexBuilds::new();
    let t0 = at(1_000);
    assert!(registry.is_empty());
    assert_eq!(registry.oldest_started(), None);

    let first = registry.begin(t0);
    let second = registry.begin(at(1_000 + 5));
    assert_eq!(registry.len(), 2);
    assert_eq!(registry.oldest_started(), Some(t0));

    registry.end(first);
    assert_eq!(registry.len(), 1);
    assert_eq!(registry.oldest_started(), Some(at(1_000 + 5)));

    registry.end(second);
    assert!(registry.is_empty());
    assert_eq!(registry.oldest_started(), None);
}

#[test]
fn guard_drops_on_the_error_path_too() {
    let mut registry = ActiveSearchIndexBuilds::new();
    let t0 = at(1_000);
    let mut build = || -> Result<(), &'static str> {
        let guard = registry.begin(t0);
        let uploaded = Err("upload failed");
        registry.end(guard);
        uploaded
    };
    assert!(build().is_err());
    assert!(registry.is_empty());
}

#[test]
fn the_oldest_build_is_not_always_the_first() {
    let mut registry = ActiveSearchIndexBuilds::new();
    let late = registry.begin(at(30));
    let early = registry.begin(at(10));
    let middle = registry.begin(at(20));
    assert_eq!(registry.oldest_started(), Some(at(10)));
    registry.end(early);
    assert_eq!(registry.oldest_started(), Some(at(20)));
    registry.end(middle);
    assert_eq!(registry.oldest_started(), Some(at(30)));
    registry.end(late);
    assert_eq!(registry.len(), 0);
}

#[test]
fn builds_that_start_together_are_told_apart() {
    let mut registry = ActiveSearchIndexBuilds::new();
    let one = registry.begin(at(5));
    let two = registry.begin(at(5));
    registry.end(two);
    assert_eq!(registry.len(), 1);
    assert_eq!(registry.oldest_started(), Some(at(5)));
    registry.end(one);
    assert!(registry.is_empty());
}
