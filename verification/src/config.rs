//! What the collector is allowed to do.

use vstd::prelude::*;
use crate::text::{is_white_space, str_eq, trim, trimmed, trimmed_end, trimmed_start};
use crate::time::Duration;

verus! {

/// Lowest accepted minimum object age, in seconds. Age is what protects a
/// segment between its upload finishing and its `_index` revision committing,
/// so no setting must ever be able to shrink that protection to nothing.
pub const MIN_OBJECT_AGE_FLOOR_SECS: u64 = 600;

/// What the collector is allowed to do, from `SEARCH_SEGMENT_GC_MODE`.
#[derive(Clone, Copy, Debug, PartialEq, Eq, Structural)]
pub enum SearchSegmentGcMode {
    /// Do nothing (the default).
    Off,
    /// Build the keep set, list storage, and log what would be deleted.
    DryRun,
    /// Delete orphaned objects.
    Delete,
}

/// The collector's configuration, validated.
#[derive(Clone, Copy, Debug, PartialEq, Eq, Structural)]
pub struct SearchSegmentGcConfig {
    pub mode: SearchSegmentGcMode,
    pub min_object_age: Duration,
    pub max_deletes_per_round: usize,
}

/// Why a configuration is not accepted.
#[derive(Debug, PartialEq, Eq)]
pub enum ConfigError {
    /// `mode`, without white space around it, is no mode: expected one of off,
    /// dry_run, delete.
    InvalidMode { mode: String },
    /// The minimum object age is below the floor.
    AgeBelowFloor { min_object_age: Duration },
}

/// The name of a mode.
pub open spec fn mode_name(mode: SearchSegmentGcMode) -> Seq<char> {
    match mode {
        SearchSegmentGcMode::Off => "off"@,
        SearchSegmentGcMode::DryRun => "dry_run"@,
        SearchSegmentGcMode::Delete => "delete"@,
    }
}

/// The mode with the given name.
pub open spec fn mode_named(name: Seq<char>) -> Option<SearchSegmentGcMode> {
    if name == "off"@ {
        Some(SearchSegmentGcMode::Off)
    } else if name == "dry_run"@ {
        Some(SearchSegmentGcMode::DryRun)
    } else if name == "delete"@ {
        Some(SearchSegmentGcMode::Delete)
    } else {
        None
    }
}

/// `r` is what parsing `s` gives: the mode that `s` names, white space around it
/// aside, or that name in an error.
pub open spec fn is_parse_of(s: Seq<char>, r: Result<SearchSegmentGcMode, ConfigError>) -> bool {
    match mode_named(trimmed(s)) {
        Some(mode) => r == Ok::<SearchSegmentGcMode, ConfigError>(mode),
        None => r matches Err(ConfigError::InvalidMode { mode }) && mode@ == trimmed(s),
    }
}

/// The lowest accepted minimum object age, in nanoseconds.
pub open spec fn age_floor() -> int {
    MIN_OBJECT_AGE_FLOOR_SECS * 1_000_000_000
}

/// `r` is what validating these settings gives. A bad mode is an error whatever
/// the age is.
pub open spec fn is_validation_of(
    mode: Seq<char>,
    min_object_age: Duration,
    max_deletes_per_round: usize,
    r: Result<SearchSegmentGcConfig, ConfigError>,
) -> bool {
    match mode_named(trimmed(mode)) {
        None => r matches Err(ConfigError::InvalidMode { mode: given }) && given@ == trimmed(mode),
        Some(mode) => if min_object_age@ < age_floor() {
            r == Err::<SearchSegmentGcConfig, ConfigError>(
                ConfigError::AgeBelowFloor { min_object_age },
            )
        } else {
            r == Ok::<SearchSegmentGcConfig, ConfigError>(
                SearchSegmentGcConfig { mode, min_object_age, max_deletes_per_round },
            )
        },
    }
}

/// The lowest accepted minimum object age.
pub fn min_object_age_floor() -> (floor: Duration)
    ensures
        floor@ == age_floor(),
{
    Duration::from_secs(MIN_OBJECT_AGE_FLOOR_SECS)
}

impl SearchSegmentGcMode {
    /// The mode that `s` names, white space around it aside. Neither an unknown
    /// word nor a case variant maps to a mode.
    pub fn from_str(s: &str) -> (r: Result<SearchSegmentGcMode, ConfigError>)
        ensures
            is_parse_of(s@, r),
    {
        let name = trim(s);
        if str_eq(name, "off") {
            Ok(SearchSegmentGcMode::Off)
        } else if str_eq(name, "dry_run") {
            Ok(SearchSegmentGcMode::DryRun)
        } else if str_eq(name, "delete") {
            Ok(SearchSegmentGcMode::Delete)
        } else {
            Err(ConfigError::InvalidMode { mode: name.to_owned() })
        }
    }

    /// The name of the mode.
    pub fn as_str(self) -> (name: &'static str)
        ensures
            name@ == mode_name(self),
    {
        match self {
            SearchSegmentGcMode::Off => "off",
            SearchSegmentGcMode::DryRun => "dry_run",
            SearchSegmentGcMode::Delete => "delete",
        }
    }
}

impl std::str::FromStr for SearchSegmentGcMode {
    type Err = ConfigError;

    fn from_str(s: &str) -> (r: Result<SearchSegmentGcMode, ConfigError>)
        ensures
            is_parse_of(s@, r),
    {
        SearchSegmentGcMode::from_str(s)
    }
}

impl SearchSegmentGcConfig {
    /// Validate a configuration. An unparseable mode or an age below the
    /// floor is an error rather than a fallback, so a typo or an unsafe value
    /// shows up every round instead of silently meaning "off" or "delete".
    pub fn new(mode: &str, min_object_age: Duration, max_deletes_per_round: usize) -> (r: Result<
        SearchSegmentGcConfig,
        ConfigError,
    >)
        ensures
            is_validation_of(mode@, min_object_age, max_deletes_per_round, r),
    {
        let mode = match SearchSegmentGcMode::from_str(mode) {
            Ok(mode) => mode,
            Err(e) => return Err(e),
        };
        if min_object_age.nanos < min_object_age_floor().nanos {
            return Err(ConfigError::AgeBelowFloor { min_object_age });
        }
        Ok(SearchSegmentGcConfig { mode, min_object_age, max_deletes_per_round })
    }
}

/// The name of a mode names that mode, and no other.
pub proof fn law_mode_name_round_trip(mode: SearchSegmentGcMode)
    ensures
        mode_named(trimmed(mode_name(mode))) == Some(mode),
        forall|name: Seq<char>| #[trigger]
            mode_named(name) == Some(mode) ==> name == mode_name(mode),
{
    reveal_strlit("off");
    reveal_strlit("dry_run");
    reveal_strlit("delete");
    let name = mode_name(mode);
    assert(!is_white_space(name[0]));
    assert(!is_white_space(name.last()));
    assert(trimmed_start(name) == name);
    assert(trimmed_end(name) == name);
    assert("off"@.len() == 3);
    assert("dry_run"@.len() == 7);
    assert("delete"@.len() == 6);
}

/// There are three names, spelled exactly so, and each names one mode.
pub proof fn law_three_names(name: Seq<char>)
    ensures
        mode_named(name) == Some(SearchSegmentGcMode::Off) <==> name == "off"@,
        mode_named(name) == Some(SearchSegmentGcMode::DryRun) <==> name == "dry_run"@,
        mode_named(name) == Some(SearchSegmentGcMode::Delete) <==> name == "delete"@,
        mode_name(SearchSegmentGcMode::Off) == "off"@,
        mode_name(SearchSegmentGcMode::DryRun) == "dry_run"@,
        mode_name(SearchSegmentGcMode::Delete) == "delete"@,
{
    reveal_strlit("off");
    reveal_strlit("dry_run");
    reveal_strlit("delete");
    assert("off"@.len() == 3);
    assert("dry_run"@.len() == 7);
    assert("delete"@.len() == 6);
}

/// A name with white space around it parses to the mode it names, and any other
/// text to an error that gives it without the white space.
pub proof fn law_padded_name_parses(
    before: Seq<char>,
    name: Seq<char>,
    behind: Seq<char>,
    r: Result<SearchSegmentGcMode, ConfigError>,
)
    requires
        forall|i: int| 0 <= i < before.len() ==> is_white_space(#[trigger] before[i]),
        forall|i: int| 0 <= i < behind.len() ==> is_white_space(#[trigger] behind[i]),
        name.len() > 0 ==> !is_white_space(name[0]) && !is_white_space(name.last()),
        is_parse_of(before + name + behind, r),
    ensures
        r == Ok::<SearchSegmentGcMode, ConfigError>(SearchSegmentGcMode::Off) <==> name == "off"@,
        r == Ok::<SearchSegmentGcMode, ConfigError>(SearchSegmentGcMode::DryRun) <==> name
            == "dry_run"@,
        r == Ok::<SearchSegmentGcMode, ConfigError>(SearchSegmentGcMode::Delete) <==> name
            == "delete"@,
        r matches Err(e) ==> (e matches ConfigError::InvalidMode { mode } && mode@ == name),
{
    crate::text::law_trimming_undoes_padding(before, name, behind);
    law_three_names(name);
}

/// Which settings are accepted, in seconds and words: a known mode and an age of
/// at least ten minutes. They are kept as they were given. A bad mode is reported
/// whatever the age; a bad age with the age.
pub proof fn law_accepted_settings(
    before: Seq<char>,
    name: Seq<char>,
    behind: Seq<char>,
    min_object_age: Duration,
    max_deletes_per_round: usize,
    r: Result<SearchSegmentGcConfig, ConfigError>,
)
    requires
        forall|i: int| 0 <= i < before.len() ==> is_white_space(#[trigger] before[i]),
        forall|i: int| 0 <= i < behind.len() ==> is_white_space(#[trigger] behind[i]),
        name.len() > 0 ==> !is_white_space(name[0]) && !is_white_space(name.last()),
        is_validation_of(before + name + behind, min_object_age, max_deletes_per_round, r),
    ensures
        r is Ok <==> (name == "off"@ || name == "dry_run"@ || name == "delete"@)
            && min_object_age.nanos >= 600 * 1_000_000_000,
        r matches Ok(config) ==> {
            &&& config.min_object_age == min_object_age
            &&& config.max_deletes_per_round == max_deletes_per_round
            &&& config.mode == SearchSegmentGcMode::Off <==> name == "off"@
            &&& config.mode == SearchSegmentGcMode::DryRun <==> name == "dry_run"@
            &&& config.mode == SearchSegmentGcMode::Delete <==> name == "delete"@
        },
        r matches Err(e) ==> if name == "off"@ || name == "dry_run"@ || name == "delete"@ {
            e == (ConfigError::AgeBelowFloor { min_object_age })
        } else {
            e matches ConfigError::InvalidMode { mode } && mode@ == name
        },
{
    crate::text::law_trimming_undoes_padding(before, name, behind);
    law_three_names(name);
}

} // verus!
