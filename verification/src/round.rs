//! One collection round.
//!
//! A round is begun with its configuration and the wall-clock instant, before
//! the keep set is built. From the keep set and the storage listing it makes a
//! plan. The plan hands out the objects to delete one at a time and is told how
//! each delete went; at the end it sums the round up.

use vstd::prelude::*;
use crate::config::{SearchSegmentGcConfig, SearchSegmentGcMode};
use crate::listing::{is_stable_sort, ObjectListing, total_size};
use crate::orphans::{
    is_orphan, orphans_of, OrphanSelection, referenced_of, select_orphans, standing, Standing,
    too_young_of,
};
use crate::string_set::StringSet;
use crate::time::SystemTime;

verus! {

/// How many orphan keys a round logs individually; the rest are covered by
/// the count and digest in the summary line.
pub const LOGGED_KEY_SAMPLE: usize = 50;

/// How a round ended.
#[derive(Clone, Copy, Debug, PartialEq, Eq, Structural)]
pub enum RoundOutcome {
    /// Keep set and listing were computed; deletes (if any) were attempted.
    Completed,
    /// Storage holds objects but the keep set references none of them.
    Refused,
}

/// The name of an outcome.
pub open spec fn outcome_name(outcome: RoundOutcome) -> Seq<char> {
    match outcome {
        RoundOutcome::Completed => "completed"@,
        RoundOutcome::Refused => "refused"@,
    }
}

impl RoundOutcome {
    pub fn as_str(self) -> (name: &'static str)
        ensures
            name@ == outcome_name(self),
    {
        match self {
            RoundOutcome::Completed => "completed",
            RoundOutcome::Refused => "refused",
        }
    }
}

/// What one collection round did.
#[derive(Clone, Copy, Debug, PartialEq, Eq, Structural)]
pub struct SearchSegmentGcSummary {
    pub mode: SearchSegmentGcMode,
    pub outcome: RoundOutcome,
    pub listed: usize,
    pub referenced: usize,
    pub too_young: usize,
    pub orphans: usize,
    pub orphan_bytes: u64,
    pub deleted: usize,
    pub deleted_bytes: u64,
    pub failed: usize,
    /// Orphans left for a later round because of the per-round delete cap, or
    /// because an index build was running.
    pub deferred: usize,
}

/// Why a round does not begin.
#[derive(Clone, Copy, Debug, PartialEq, Eq, Structural)]
pub enum RoundError {
    /// The mode is off.
    ModeOff,
}

/// An orphan as it is logged.
#[derive(Debug, PartialEq, Eq)]
pub struct LoggedOrphan {
    pub key: String,
    pub size: u64,
    pub age_seconds: u128,
}

/// `logged` is how `object` is logged at `now`: its age in whole seconds, none if
/// it was modified later.
pub open spec fn is_log_of(logged: LoggedOrphan, object: ObjectListing, now: SystemTime) -> bool {
    &&& logged.key@ == object.key@
    &&& logged.size == object.size
    &&& logged.age_seconds == (if object.last_modified@ <= now@ {
        (now@ - object.last_modified@) / 1_000_000_000
    } else {
        0
    })
}

/// Whether the keep set describes the listing at all.
pub open spec fn covers(listed: nat, referenced: nat) -> bool {
    listed > 0 ==> referenced > 0
}

/// Whether the keep set describes the listing at all.
///
/// A healthy deployment with any search index has at least one listed object
/// that its metadata references. If storage holds objects but the keep set
/// protects none of them, the collector is almost certainly looking at the
/// wrong storage (or the metadata scan came back empty), and deleting would
/// destroy every segment. The one legitimate case — every index deleted long
/// ago, only orphans left — is not worth that risk; such a store is reported
/// but never collected.
pub fn keep_set_covers_storage(listed: usize, referenced: usize) -> (r: bool)
    ensures
        r == covers(listed as nat, referenced as nat),
        r == (listed == 0 || referenced > 0),
{
    listed == 0 || referenced > 0
}

/// A round that has begun: its settings, and the instant at which it began.
#[derive(Debug)]
pub struct SearchSegmentGcRound {
    config: SearchSegmentGcConfig,
    now: SystemTime,
    held: bool,
}

impl SearchSegmentGcRound {
    /// The settings of the round.
    pub closed spec fn config(self) -> SearchSegmentGcConfig {
        self.config
    }

    /// The instant at which it began.
    pub closed spec fn now(self) -> SystemTime {
        self.now
    }

    /// Whether an index build keeps it from deleting.
    pub closed spec fn held(self) -> bool {
        self.held
    }
}

/// Begin one collection round. `now` is the wall-clock instant used for the age
/// check; the keep set is built after it was read.
pub fn collect_orphaned_search_segments(config: SearchSegmentGcConfig, now: SystemTime) -> (r:
    Result<SearchSegmentGcRound, RoundError>)
    ensures
        config.mode == SearchSegmentGcMode::Off ==> r == Err::<SearchSegmentGcRound, RoundError>(
            RoundError::ModeOff,
        ),
        config.mode != SearchSegmentGcMode::Off ==> (r matches Ok(round) && round.config() == config
            && round.now() == now && !round.held()),
{
    if config.mode == SearchSegmentGcMode::Off {
        return Err(RoundError::ModeOff);
    }
    Ok(SearchSegmentGcRound { config, now, held: false })
}

/// Where a round stands: what it found, how many deletes it may attempt, and
/// how those attempted so far went.
pub struct Progress {
    pub mode: SearchSegmentGcMode,
    pub outcome: RoundOutcome,
    pub listed: nat,
    pub referenced: nat,
    pub too_young: nat,
    /// The orphans in the order of their keys.
    pub orphans: Seq<ObjectListing>,
    pub max_deletes: nat,
    /// For each orphan attempted, in order, whether it was deleted.
    pub results: Seq<bool>,
}

/// Whether the round deletes at all.
pub open spec fn deletes(progress: Progress) -> bool {
    progress.mode == SearchSegmentGcMode::Delete && progress.outcome == RoundOutcome::Completed
}

/// How many deletes the round attempts in all.
pub open spec fn attempts(progress: Progress) -> nat {
    if !deletes(progress) {
        0
    } else if progress.max_deletes < progress.orphans.len() {
        progress.max_deletes
    } else {
        progress.orphans.len()
    }
}

/// How many of the attempted deletes succeeded.
pub open spec fn successes(results: Seq<bool>) -> nat
    decreases results.len(),
{
    if results.len() == 0 {
        0
    } else {
        successes(results.drop_last()) + (if results.last() {
            1nat
        } else {
            0nat
        })
    }
}

/// The bytes in the objects that were deleted.
pub open spec fn deleted_size(orphans: Seq<ObjectListing>, results: Seq<bool>) -> int
    decreases results.len(),
{
    if results.len() == 0 {
        0
    } else {
        deleted_size(orphans, results.drop_last()) + (if results.last() {
            orphans[results.len() - 1].size as int
        } else {
            0int
        })
    }
}

/// `summary` sums up the round at the point `progress`.
pub open spec fn sums_up(summary: SearchSegmentGcSummary, progress: Progress) -> bool {
    let deleted = successes(progress.results);
    &&& summary.mode == progress.mode
    &&& summary.outcome == progress.outcome
    &&& summary.listed == progress.listed
    &&& summary.referenced == progress.referenced
    &&& summary.too_young == progress.too_young
    &&& summary.orphans == progress.orphans.len()
    &&& summary.orphan_bytes == total_size(progress.orphans)
    &&& summary.deleted == deleted
    &&& summary.deleted_bytes == deleted_size(progress.orphans, progress.results)
    &&& summary.failed == progress.results.len() - deleted
    &&& summary.deferred == (if deletes(progress) {
        progress.orphans.len() - progress.results.len()
    } else {
        0
    })
}

/// `progress` is that of a round just planned for `listing`: nothing has been
/// attempted yet.
pub open spec fn planned(
    progress: Progress,
    round: SearchSegmentGcRound,
    keep: Set<Seq<char>>,
    listing: Seq<ObjectListing>,
) -> bool {
    let config = round.config();
    let orphans = orphans_of(listing, keep, round.now(), config.min_object_age);
    &&& progress.mode == config.mode
    &&& progress.outcome == (if covers(listing.len(), referenced_of(listing, keep).len()) {
        RoundOutcome::Completed
    } else {
        RoundOutcome::Refused
    })
    &&& progress.listed == listing.len()
    &&& progress.referenced == referenced_of(listing, keep).len()
    &&& progress.too_young == too_young_of(
        listing,
        keep,
        round.now(),
        config.min_object_age,
    ).len()
    &&& progress.orphans.len() == orphans.len()
    &&& is_stable_sort(orphans, progress.orphans)
    &&& progress.max_deletes == (if round.held() {
        0
    } else {
        config.max_deletes_per_round as int
    })
    &&& progress.results == Seq::<bool>::empty()
}

/// The plan of a round, and how far it has been carried out.
pub struct SearchSegmentGcPlan {
    mode: SearchSegmentGcMode,
    now: SystemTime,
    outcome: RoundOutcome,
    listed: usize,
    selection: OrphanSelection,
    orphan_bytes: u64,
    max_deletes: usize,
    deleted: usize,
    deleted_bytes: u64,
    failed: usize,
    results: Ghost<Seq<bool>>,
}

impl View for SearchSegmentGcPlan {
    type V = Progress;

    closed spec fn view(&self) -> Progress {
        Progress {
            mode: self.mode,
            outcome: self.outcome,
            listed: self.listed as nat,
            referenced: self.selection.referenced as nat,
            too_young: self.selection.too_young as nat,
            orphans: self.selection.orphans@,
            max_deletes: self.max_deletes as nat,
            results: self.results@,
        }
    }
}

/// The bytes in the first `n` objects are at most those in all.
proof fn lemma_total_size_of_first(objects: Seq<ObjectListing>, n: int)
    requires
        0 <= n <= objects.len(),
    ensures
        0 <= total_size(objects.take(n)) <= total_size(objects),
    decreases objects.len(),
{
    if n == objects.len() {
        assert(objects.take(n) =~= objects);
        if n > 0 {
            lemma_total_size_of_first(objects.drop_last(), n - 1);
        }
    } else {
        lemma_total_size_of_first(objects.drop_last(), n);
        assert(objects.drop_last().take(n) =~= objects.take(n));
    }
}

/// The bytes that a filter keeps of the first `n` objects are at most those it
/// keeps of all.
proof fn lemma_filtered_size_grows(
    objects: Seq<ObjectListing>,
    pred: spec_fn(ObjectListing) -> bool,
    n: int,
)
    requires
        0 <= n <= objects.len(),
    ensures
        total_size(objects.take(n).filter(pred)) <= total_size(objects.filter(pred)),
    decreases objects.len(),
{
    if n == objects.len() {
        assert(objects.take(n) =~= objects);
    } else {
        reveal(Seq::filter);
        lemma_filtered_size_grows(objects.drop_last(), pred, n);
        assert(objects.drop_last().take(n) =~= objects.take(n));
        let kept = objects.drop_last().filter(pred);
        assert(kept.push(objects.last()).drop_last() =~= kept);
    }
}

/// No more bytes are deleted than the attempted objects hold.
proof fn lemma_deleted_size_bounded(orphans: Seq<ObjectListing>, results: Seq<bool>)
    requires
        results.len() <= orphans.len(),
    ensures
        0 <= deleted_size(orphans, results) <= total_size(orphans.take(results.len() as int)),
        successes(results) <= results.len(),
    decreases results.len(),
{
    if results.len() > 0 {
        let n = results.len() as int;
        lemma_deleted_size_bounded(orphans, results.drop_last());
        assert(orphans.take(n).drop_last() =~= orphans.take(n - 1));
    }
}

impl SearchSegmentGcRound {
    /// Take note of the index builds registered when the round began, of which
    /// the longest-running started at `oldest_started`. A round that began
    /// while a build was already running cannot prove that the build's objects
    /// are unreferenced, and deletes nothing.
    pub fn observe_builds(self, oldest_started: Option<SystemTime>) -> (round: SearchSegmentGcRound)
        ensures
            round.config() == self.config(),
            round.now() == self.now(),
            round.held() == (self.held() || (oldest_started matches Some(started) && started@
                <= self.now()@)),
    {
        let running: bool = match oldest_started {
            Some(started) => started.nanos <= self.now.nanos,
            None => false,
        };
        SearchSegmentGcRound { config: self.config, now: self.now, held: self.held || running }
    }

    /// Whether the bytes of the orphans in `listing` can be counted.
    pub fn can_count_bytes(&self, keep: &StringSet, listing: &Vec<ObjectListing>) -> (r: bool)
        ensures
            r == (total_size(
                orphans_of(listing@, keep@, self.now(), self.config().min_object_age),
            ) <= u64::MAX),
    {
        let ghost pred = |object: ObjectListing|
            is_orphan(object, keep@, self.now, self.config.min_object_age);
        let mut sum: u64 = 0;
        let n: usize = listing.len();
        proof {
            reveal(Seq::filter);
            assert(listing@.take(n as int) =~= listing@);
        }
        for i in 0..n
            invariant
                n == listing@.len(),
                pred == (|object: ObjectListing|
                    is_orphan(object, keep@, self.now, self.config.min_object_age)),
                sum == total_size(listing@.take(i as int).filter(pred)),
        {
            proof {
                reveal(Seq::filter);
                assert(listing@.take(i + 1).drop_last() =~= listing@.take(i as int));
                lemma_filtered_size_grows(listing@, pred, i + 1);
            }
            match standing(&listing[i], keep, self.now, self.config.min_object_age) {
                Standing::Orphan => {
                    let ghost before = listing@.take(i as int).filter(pred);
                    assert(before.push(listing@[i as int]).drop_last() =~= before);
                    match sum.checked_add(listing[i].size) {
                        Some(next) => {
                            sum = next;
                        },
                        None => {
                            return false;
                        },
                    }
                },
                _ => {},
            }
        }
        true
    }

    /// Plan the round from what the keep set references and what storage holds.
    pub fn plan(self, keep: &StringSet, listing: Vec<ObjectListing>) -> (plan: SearchSegmentGcPlan)
        requires
            total_size(
                orphans_of(listing@, keep@, self.now(), self.config().min_object_age),
            ) <= u64::MAX,
        ensures
            planned(plan@, self, keep@, listing@),
            plan.now() == self.now(),
    {
        let ghost orphans = orphans_of(listing@, keep@, self.now, self.config.min_object_age);
        let listed: usize = listing.len();
        let selection = select_orphans(listing, keep, self.now, self.config.min_object_age);
        let outcome = if keep_set_covers_storage(listed, selection.referenced) {
            RoundOutcome::Completed
        } else {
            RoundOutcome::Refused
        };
        proof {
            crate::listing::law_same_under_each_key_permutes(orphans, selection.orphans@);
        }
        let orphan_bytes: u64 = sum_of_sizes(&selection.orphans);
        let max_deletes: usize = if self.held {
            0
        } else {
            self.config.max_deletes_per_round
        };
        SearchSegmentGcPlan {
            mode: self.config.mode,
            now: self.now,
            outcome,
            listed,
            selection,
            orphan_bytes,
            max_deletes,
            deleted: 0,
            deleted_bytes: 0,
            failed: 0,
            results: Ghost(Seq::empty()),
        }
    }
}

/// The bytes in `objects`.
fn sum_of_sizes(objects: &Vec<ObjectListing>) -> (sum: u64)
    requires
        total_size(objects@) <= u64::MAX,
    ensures
        sum == total_size(objects@),
{
    let mut sum: u64 = 0;
    let n: usize = objects.len();
    for i in 0..n
        invariant
            n == objects@.len(),
            total_size(objects@) <= u64::MAX,
            sum == total_size(objects@.take(i as int)),
    {
        proof {
            lemma_total_size_of_first(objects@, i + 1);
            assert(objects@.take(i + 1).drop_last() =~= objects@.take(i as int));
        }
        sum = sum + objects[i].size;
    }
    assert(objects@.take(n as int) =~= objects@);
    sum
}

impl SearchSegmentGcPlan {
    #[verifier::type_invariant]
    spec fn consistent(self) -> bool {
        let results = self.results@;
        let orphans = self.selection.orphans@;
        &&& self.orphan_bytes == total_size(orphans)
        &&& results.len() <= attempts(self@)
        &&& self.deleted == successes(results)
        &&& self.failed == results.len() - successes(results)
        &&& self.deleted_bytes == deleted_size(orphans, results)
    }

    /// The instant at which the round began.
    pub closed spec fn now(self) -> SystemTime {
        self.now
    }

    /// How the round ends.
    pub fn outcome(&self) -> (outcome: RoundOutcome)
        ensures
            outcome == self@.outcome,
    {
        self.outcome
    }

    /// The orphans, sorted by key.
    pub fn orphans(&self) -> (orphans: &Vec<ObjectListing>)
        ensures
            orphans@ == self@.orphans,
    {
        &self.selection.orphans
    }

    /// The orphans that are logged one by one.
    pub fn logged_orphans(&self) -> (logged: Vec<LoggedOrphan>)
        ensures
            logged@.len() == (if self@.orphans.len() < LOGGED_KEY_SAMPLE {
                self@.orphans.len() as int
            } else {
                LOGGED_KEY_SAMPLE as int
            }),
            logged@.len() <= 50,
            logged@.len() < 50 ==> logged@.len() == self@.orphans.len(),
            forall|i: int|
                0 <= i < logged@.len() ==> is_log_of(
                    #[trigger] logged@[i],
                    self@.orphans[i],
                    self.now(),
                ),
    {
        let orphans = &self.selection.orphans;
        let n: usize = if orphans.len() < LOGGED_KEY_SAMPLE {
            orphans.len()
        } else {
            LOGGED_KEY_SAMPLE
        };
        let mut logged: Vec<LoggedOrphan> = Vec::new();
        for i in 0..n
            invariant
                n <= orphans@.len(),
                orphans@ == self@.orphans,
                logged@.len() == i,
                forall|j: int|
                    0 <= j < i ==> is_log_of(#[trigger] logged@[j], self@.orphans[j], self.now()),
        {
            let object = &orphans[i];
            let age_seconds: u128 = match self.now.duration_since(object.last_modified) {
                Some(age) => age.as_secs(),
                None => 0,
            };
            logged.push(LoggedOrphan { key: object.key.clone(), size: object.size, age_seconds });
        }
        logged
    }

    /// The object to delete next; `None` once the round has attempted all the
    /// deletes it may.
    pub fn next_delete(&self) -> (object: Option<&ObjectListing>)
        ensures
            self@.results.len() < attempts(self@) ==> object == Some(
                &self@.orphans[self@.results.len() as int],
            ),
            self@.results.len() >= attempts(self@) ==> object is None,
    {
        proof {
            use_type_invariant(self);
            lemma_deleted_size_bounded(self.selection.orphans@, self.results@);
        }
        if self.mode != SearchSegmentGcMode::Delete || self.outcome != RoundOutcome::Completed {
            return None;
        }
        let attempted: usize = self.deleted + self.failed;
        if attempted < self.max_deletes && attempted < self.selection.orphans.len() {
            Some(&self.selection.orphans[attempted])
        } else {
            None
        }
    }

    /// Record whether the delete of the object that came next succeeded. A
    /// failed delete is counted and the round continues.
    pub fn record(self, succeeded: bool) -> (plan: SearchSegmentGcPlan)
        requires
            self@.results.len() < attempts(self@),
        ensures
            plan@ == (Progress { results: self@.results.push(succeeded), ..self@ }),
            plan.now() == self.now(),
    {
        proof {
            use_type_invariant(&self);
            let results = self.results@;
            let orphans = self.selection.orphans@;
            let after = results.push(succeeded);
            assert(after.drop_last() =~= results);
            lemma_deleted_size_bounded(orphans, after);
            lemma_deleted_size_bounded(orphans, results);
            lemma_total_size_of_first(orphans, after.len() as int);
        }
        let attempted: usize = self.deleted + self.failed;
        let size: u64 = self.selection.orphans[attempted].size;
        let ghost after = self.results@.push(succeeded);
        if succeeded {
            SearchSegmentGcPlan {
                deleted: self.deleted + 1,
                deleted_bytes: self.deleted_bytes + size,
                results: Ghost(after),
                ..self
            }
        } else {
            SearchSegmentGcPlan { failed: self.failed + 1, results: Ghost(after), ..self }
        }
    }

    /// Sum up the round once all its deletes have been attempted.
    pub fn finish(self) -> (summary: SearchSegmentGcSummary)
        requires
            self@.results.len() == attempts(self@),
        ensures
            sums_up(summary, self@),
    {
        proof {
            use_type_invariant(&self);
            lemma_deleted_size_bounded(self.selection.orphans@, self.results@);
        }
        let orphans: usize = self.selection.orphans.len();
        let deferred: usize = if self.mode == SearchSegmentGcMode::Delete && self.outcome
            == RoundOutcome::Completed {
            orphans - (self.deleted + self.failed)
        } else {
            0
        };
        SearchSegmentGcSummary {
            mode: self.mode,
            outcome: self.outcome,
            listed: self.listed,
            referenced: self.selection.referenced,
            too_young: self.selection.too_young,
            orphans,
            orphan_bytes: self.orphan_bytes,
            deleted: self.deleted,
            deleted_bytes: self.deleted_bytes,
            failed: self.failed,
            deferred,
        }
    }
}

/// The outcomes' names.
pub proof fn law_outcome_names()
    ensures
        outcome_name(RoundOutcome::Completed) == "completed"@,
        outcome_name(RoundOutcome::Refused) == "refused"@,
{
}

/// A keep set covers storage exactly if storage is empty or it references
/// something there.
pub proof fn law_covers(listed: nat, referenced: nat)
    ensures
        covers(0, referenced),
        covers(listed, referenced + 1),
        !covers(listed + 1, 0),
{
}

/// How many deletes a round attempts does not depend on how those so far went: in
/// a completed round of mode delete all orphans, or as many as the cap allows; in
/// any other round none.
pub proof fn law_attempts(progress: Progress)
    ensures
        attempts(progress) <= progress.max_deletes,
        attempts(progress) <= progress.orphans.len(),
        progress.mode == SearchSegmentGcMode::Delete && progress.outcome == RoundOutcome::Completed
            ==> attempts(progress) == progress.max_deletes || attempts(progress)
            == progress.orphans.len(),
        progress.mode != SearchSegmentGcMode::Delete || progress.outcome == RoundOutcome::Refused
            ==> attempts(progress) == 0,
{
}

/// Each successful delete counts one and the bytes of the object it deleted; a
/// failed one counts nothing.
pub proof fn law_each_delete_counts(orphans: Seq<ObjectListing>, results: Seq<bool>)
    requires
        results.len() < orphans.len(),
    ensures
        successes(Seq::empty()) == 0,
        deleted_size(orphans, Seq::empty()) == 0,
        successes(results.push(true)) == successes(results) + 1,
        successes(results.push(false)) == successes(results),
        deleted_size(orphans, results.push(true)) == deleted_size(orphans, results)
            + orphans[results.len() as int].size,
        deleted_size(orphans, results.push(false)) == deleted_size(orphans, results),
{
    assert(results.push(true).drop_last() =~= results);
    assert(results.push(false).drop_last() =~= results);
}

/// An orphan is logged under its key and size with its age in whole seconds,
/// rounded down; one modified later with none.
pub proof fn law_logged_age(logged: LoggedOrphan, object: ObjectListing, now: SystemTime)
    requires
        is_log_of(logged, object, now),
    ensures
        logged.key@ == object.key@,
        logged.size == object.size,
        object.last_modified.nanos <= now.nanos ==> logged.age_seconds * 1_000_000_000 <= now.nanos
            - object.last_modified.nanos < (logged.age_seconds + 1) * 1_000_000_000,
        object.last_modified.nanos > now.nanos ==> logged.age_seconds == 0,
{
}

} // verus!
