use search_segment_gc::config::{
    min_object_age_floor, ConfigError, SearchSegmentGcConfig, SearchSegmentGcMode,
    MIN_OBJECT_AGE_FLOOR_SECS,
};
use search_segment_gc::text::{is_white_space_char, str_eq, str_lt, trim};
use search_segment_gc::time::{Duration, SystemTime};

#[test]
fn mode_parses_exactly_three_values_and_rejects_the_rest() {
    assert_eq!(
        "off".parse::<SearchSegmentGcMode>().unwrap(),
        SearchSegmentGcMode::Off
    );
    assert_eq!(
        "dry_run".parse::<SearchSegmentGcMode>().unwrap(),
        SearchSegmentGcMode::DryRun
    );
    assert_eq!(
        " delete\n".parse::<SearchSegmentGcMode>().unwrap(),
        SearchSegmentGcMode::Delete
    );
    // Neither an unknown word nor a case variant may silently map to a
    // mode; the caller treats a parse error as "do nothing".
    assert!("on".parse::<SearchSegmentGcMode>().is_err());
    assert!("DELETE".parse::<SearchSegmentGcMode>().is_err());
    assert!("".parse::<SearchSegmentGcMode>().is_err());
}

#[test]
fn config_rejects_an_age_below_the_floor() {
    // The age is the only thing protecting an uploaded segment until its
    // _index revision commits, so the setting must not be able to remove it.
    let floor = min_object_age_floor();
    assert!(SearchSegmentGcConfig::new("delete", Duration { nanos: 0 }, 1000).is_err());
    assert!(SearchSegmentGcConfig::new(
        "delete",
        Duration {
            nanos: floor.nanos - Duration::from_secs(1).nanos
        },
        1000
    )
    .is_err());
    let config = SearchSegmentGcConfig::new("delete", floor, 1000).unwrap();
    assert_eq!(config.min_object_age, floor);
    // The default setting is accepted.
    assert!(SearchSegmentGcConfig::new("off", Duration::from_secs(24 * 60 * 60), 1000).is_ok());
    // A bad mode is rejected regardless of the age.
    assert!(SearchSegmentGcConfig::new("yes", Duration::from_secs(24 * 60 * 60), 1000).is_err());
}

#[test]
fn the_floor_is_ten_minutes() {
    assert_eq!(MIN_OBJECT_AGE_FLOOR_SECS, 10 * 60);
    assert_eq!(min_object_age_floor().nanos, 600_000_000_000);
}

#[test]
fn config_keeps_its_settings() {
    let age = Duration::from_secs(7200);
    let config = SearchSegmentGcConfig::new("\tdry_run ", age, 17).unwrap();
    assert_eq!(config.mode, SearchSegmentGcMode::DryRun);
    assert_eq!(config.min_object_age, age);
    assert_eq!(config.max_deletes_per_round, 17);
}

#[test]
fn config_errors_name_what_is_wrong() {
    assert_eq!(
        SearchSegmentGcConfig::new(" Off ", Duration { nanos: 0 }, 1),
        Err(ConfigError::InvalidMode {
            mode: "Off".to_string()
        })
    );
    let young = Duration {
        nanos: min_object_age_floor().nanos - 1,
    };
    assert_eq!(
        SearchSegmentGcConfig::new("off", young, 1),
        Err(ConfigError::AgeBelowFloor {
            min_object_age: young
        })
    );
}

#[test]
fn a_mode_is_read_back_from_its_name() {
    for mode in [
        SearchSegmentGcMode::Off,
        SearchSegmentGcMode::DryRun,
        SearchSegmentGcMode::Delete,
    ] {
        assert_eq!(mode.as_str().parse::<SearchSegmentGcMode>(), Ok(mode));
    }
    assert_eq!(SearchSegmentGcMode::Off.as_str(), "off");
    assert_eq!(SearchSegmentGcMode::DryRun.as_str(), "dry_run");
    assert_eq!(SearchSegmentGcMode::Delete.as_str(), "delete");
}

#[test]
fn white_space_and_trimming_are_those_of_std() {
    for c in '\0'..=char::MAX {
        assert_eq!(is_white_space_char(c), c.is_whitespace());
    }
    for s in [
        "",
        " ",
        "\u{3000}\t",
        "a",
        " a b ",
        "\u{a0}\u{e9}t\u{e9}\u{2028}",
        "\u{200b}x\u{200b}",
        "x \u{1f600} ",
    ] {
        assert_eq!(trim(s), s.trim());
    }
}

#[test]
fn strings_are_ordered_as_in_std() {
    let words = ["", "a", "ab", "b", "B", "\u{e9}", "\u{ffff}", "\u{1f600}", "a\n", "a0"];
    for a in words {
        for b in words {
            assert_eq!(str_lt(a, b), a < b);
            assert_eq!(str_eq(a, b), a == b);
        }
    }
}

#[test]
fn spans_between_instants() {
    let t = |nanos: i128| SystemTime { nanos };
    assert_eq!(t(5).duration_since(t(3)), Some(Duration { nanos: 2 }));
    assert_eq!(t(3).duration_since(t(3)), Some(Duration { nanos: 0 }));
    assert_eq!(t(3).duration_since(t(5)), None);
    assert_eq!(t(3).duration_since(t(-4)), Some(Duration { nanos: 7 }));
    assert_eq!(t(-3).duration_since(t(-4)), Some(Duration { nanos: 1 }));
    assert_eq!(
        t(i128::MAX).duration_since(t(i128::MIN)),
        Some(Duration { nanos: u128::MAX })
    );
    assert_eq!(Duration { nanos: 1_999_999_999 }.as_secs(), 1);
    assert_eq!(Duration::from_secs(u64::MAX).as_secs(), u64::MAX as u128);
}
