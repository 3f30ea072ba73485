//! What holds of selections and rounds as a whole.

use vstd::prelude::*;
use crate::builds::{Builds, is_oldest};
use crate::config::{age_floor, is_validation_of, SearchSegmentGcConfig, SearchSegmentGcMode};
use crate::keep_set::{after_steps, Harvest, nothing_gathered, ScanStep, strings_in_step};
use crate::listing::{
    has_key, law_same_under_each_key_same_objects, law_stable_sort_unique, ObjectListing,
    sorted_by_key, total_size,
};
use crate::orphans::{
    is_old_enough, is_orphan, is_referenced, orphans_of, OrphanSelection, referenced_of, selects,
    too_young_of,
};
use crate::round::{
    attempts, collect_orphaned_search_segments, deleted_size, deletes, LoggedOrphan, planned,
    Progress, RoundOutcome, SearchSegmentGcPlan, SearchSegmentGcRound, SearchSegmentGcSummary, successes,
    sums_up,
};
use crate::string_set::StringSet;
use crate::time::{Duration, SystemTime};

verus! {

/// An object is selected exactly if it is listed, its key is not in the keep set
/// and it is old enough.
pub proof fn law_orphans_exactly(
    selection: OrphanSelection,
    listing: Seq<ObjectListing>,
    keep: Set<Seq<char>>,
    now: SystemTime,
    min_age: Duration,
    object: ObjectListing,
)
    requires
        selects(selection, listing, keep, now, min_age),
    ensures
        selection.orphans@.contains(object) <==> listing.contains(object) && !is_referenced(
            object,
            keep,
        ) && is_old_enough(object, now, min_age),
{
    let pred = |o: ObjectListing| is_orphan(o, keep, now, min_age);
    law_same_under_each_key_same_objects(
        orphans_of(listing, keep, now, min_age),
        selection.orphans@,
        object,
    );
    crate::seqs::lemma_filter_members(listing, pred, object);
}

proof fn lemma_split_counts(
    listing: Seq<ObjectListing>,
    keep: Set<Seq<char>>,
    now: SystemTime,
    min_age: Duration,
)
    ensures
        referenced_of(listing, keep).len() + too_young_of(listing, keep, now, min_age).len()
            + orphans_of(listing, keep, now, min_age).len() == listing.len(),
    decreases listing.len(),
{
    reveal(Seq::filter);
    if listing.len() > 0 {
        lemma_split_counts(listing.drop_last(), keep, now, min_age);
    }
}

/// Every listed object is counted once: as referenced, as too young, or as an
/// orphan.
pub proof fn law_every_object_counted_once(
    selection: OrphanSelection,
    listing: Seq<ObjectListing>,
    keep: Set<Seq<char>>,
    now: SystemTime,
    min_age: Duration,
)
    requires
        selects(selection, listing, keep, now, min_age),
    ensures
        selection.referenced + selection.too_young + selection.orphans@.len() == listing.len(),
{
    lemma_split_counts(listing, keep, now, min_age);
}

/// An object modified after the round began is never an orphan.
pub proof fn law_future_objects_never_orphans(
    object: ObjectListing,
    keep: Set<Seq<char>>,
    now: SystemTime,
    min_age: Duration,
)
    requires
        object.last_modified@ > now@,
    ensures
        !is_orphan(object, keep, now, min_age),
{
}

/// More references never make an orphan.
pub proof fn law_more_references_fewer_orphans(
    object: ObjectListing,
    keep: Set<Seq<char>>,
    more: Set<Seq<char>>,
    now: SystemTime,
    min_age: Duration,
)
    requires
        keep.subset_of(more),
        is_orphan(object, more, now, min_age),
    ensures
        is_orphan(object, keep, now, min_age),
{
}

/// Nor does a higher minimum age.
pub proof fn law_higher_age_fewer_orphans(
    object: ObjectListing,
    keep: Set<Seq<char>>,
    now: SystemTime,
    min_age: Duration,
    higher: Duration,
)
    requires
        min_age@ <= higher@,
        is_orphan(object, keep, now, higher),
    ensures
        is_orphan(object, keep, now, min_age),
{
}

/// `after` is `before` with more deletes recorded.
pub open spec fn continues(before: Progress, after: Progress) -> bool {
    after == (Progress { results: after.results, ..before })
}

/// `after` is `before` with deletes attempted, and none left to attempt.
pub open spec fn carried_out(before: Progress, after: Progress) -> bool {
    continues(before, after) && after.results.len() == attempts(after)
}

/// Carrying a round out changes nothing but the results: what was found, the
/// orphans and the cap stay as they were planned, however each delete goes.
pub proof fn law_recording_keeps_the_plan(before: Progress, now: Progress, succeeded: bool)
    requires
        continues(before, now),
    ensures
        continues(before, before),
        continues(before, Progress { results: now.results.push(succeeded), ..now }),
        attempts(Progress { results: now.results.push(succeeded), ..now }) == attempts(before),
{
}

/// Whatever a round attempts to delete is listed, is not referenced by the keep
/// set, and is old enough.
pub proof fn law_only_orphans_deleted(
    round: SearchSegmentGcRound,
    keep: Set<Seq<char>>,
    listing: Seq<ObjectListing>,
    before: Progress,
    after: Progress,
    i: int,
)
    requires
        planned(before, round, keep, listing),
        carried_out(before, after),
        0 <= i < after.results.len(),
    ensures
        listing.contains(after.orphans[i]),
        !keep.contains(after.orphans[i].key@),
        round.now()@ - after.orphans[i].last_modified@ >= round.config().min_object_age@,
{
    let min_age = round.config().min_object_age;
    let pred = |o: ObjectListing| is_orphan(o, keep, round.now(), min_age);
    let object = after.orphans[i];
    assert(after.orphans.contains(object));
    law_same_under_each_key_same_objects(
        orphans_of(listing, keep, round.now(), min_age),
        after.orphans,
        object,
    );
    crate::seqs::lemma_filter_members(listing, pred, object);
}

/// A segment that any retained revision mentions is never deleted: if its key is
/// a string in a snapshot document, in a revision since the floor, or in a
/// revision that one of those replaced, no round with that keep set attempts it.
pub proof fn law_retained_segments_never_deleted(
    floor: u64,
    latest_ts: u64,
    steps: Seq<ScanStep>,
    harvest: Harvest,
    round: SearchSegmentGcRound,
    listing: Seq<ObjectListing>,
    before: Progress,
    after: Progress,
    step: int,
    i: int,
)
    requires
        after_steps(nothing_gathered(floor, latest_ts), steps) == Some(harvest),
        planned(before, round, harvest.strings, listing),
        carried_out(before, after),
        0 <= step < steps.len(),
        0 <= i < after.results.len(),
    ensures
        !strings_in_step(steps[step]).contains(after.orphans[i].key@),
{
    let key = after.orphans[i].key@;
    law_only_orphans_deleted(round, harvest.strings, listing, before, after, i);
    crate::keep_set::law_keep_set_complete(floor, latest_ts, steps, harvest, key);
}

/// With an accepted configuration nothing uploaded less than the age floor before
/// the round began is deleted, nor anything uploaded since.
pub proof fn law_recent_uploads_never_deleted(
    mode: Seq<char>,
    min_object_age: Duration,
    max_deletes_per_round: usize,
    config: SearchSegmentGcConfig,
    round: SearchSegmentGcRound,
    keep: Set<Seq<char>>,
    listing: Seq<ObjectListing>,
    before: Progress,
    after: Progress,
    i: int,
)
    requires
        is_validation_of(mode, min_object_age, max_deletes_per_round, Ok(config)),
        round.config() == config,
        planned(before, round, keep, listing),
        carried_out(before, after),
        0 <= i < after.results.len(),
    ensures
        after.orphans[i].last_modified@ <= round.now()@ - age_floor(),
        age_floor() > 0,
{
    law_only_orphans_deleted(round, keep, listing, before, after, i);
}

proof fn lemma_successes_bounded(orphans: Seq<ObjectListing>, results: Seq<bool>)
    ensures
        successes(results) <= results.len(),
        successes(results) == 0 ==> deleted_size(orphans, results) == 0,
    decreases results.len(),
{
    if results.len() > 0 {
        lemma_successes_bounded(orphans, results.drop_last());
    }
}

/// Only the mode that deletes deletes: a dry run reports and touches nothing.
pub proof fn law_only_delete_mode_deletes(
    before: Progress,
    after: Progress,
    summary: SearchSegmentGcSummary,
)
    requires
        carried_out(before, after),
        sums_up(summary, after),
        before.mode != SearchSegmentGcMode::Delete,
    ensures
        after.results.len() == 0,
        summary.deleted == 0,
        summary.deleted_bytes == 0,
        summary.failed == 0,
        summary.deferred == 0,
{
    lemma_successes_bounded(after.orphans, after.results);
}

/// A round refuses exactly if storage holds objects and the keep set references
/// none of them, and then it deletes nothing; it still reports the orphans.
pub proof fn law_refused_round_deletes_nothing(
    round: SearchSegmentGcRound,
    keep: Set<Seq<char>>,
    listing: Seq<ObjectListing>,
    before: Progress,
    after: Progress,
    summary: SearchSegmentGcSummary,
)
    requires
        planned(before, round, keep, listing),
        carried_out(before, after),
        sums_up(summary, after),
    ensures
        summary.outcome == RoundOutcome::Refused <==> listing.len() > 0 && (forall|i: int|
            0 <= i < listing.len() ==> !keep.contains((#[trigger] listing[i]).key@)),
        summary.outcome == RoundOutcome::Refused ==> {
            &&& summary.deleted == 0
            &&& summary.failed == 0
            &&& summary.deferred == 0
            &&& summary.orphans == orphans_of(
                listing,
                keep,
                round.now(),
                round.config().min_object_age,
            ).len()
        },
{
    lemma_successes_bounded(after.orphans, after.results);
    let pred = |o: ObjectListing| is_referenced(o, keep);
    let kept = referenced_of(listing, keep);
    if kept.len() > 0 {
        crate::seqs::lemma_filter_members(listing, pred, kept[0]);
        assert(kept.contains(kept[0]));
        let i = choose|i: int| 0 <= i < listing.len() && listing[i] == kept[0];
        assert(keep.contains(listing[i].key@));
    } else {
        assert forall|i: int| 0 <= i < listing.len() implies !keep.contains(
            (#[trigger] listing[i]).key@,
        ) by {
            crate::seqs::lemma_filter_members(listing, pred, listing[i]);
            assert(listing.contains(listing[i]));
        }
    }
}

/// A round attempts at most as many deletes as its cap, counts each as deleted or
/// failed, and defers the rest: none is lost from the count. It goes on after a
/// failed delete until the cap or the last orphan.
pub proof fn law_deletes_capped_and_counted(
    before: Progress,
    after: Progress,
    summary: SearchSegmentGcSummary,
)
    requires
        carried_out(before, after),
        sums_up(summary, after),
    ensures
        summary.deleted + summary.failed <= before.max_deletes,
        deletes(before) ==> summary.deleted + summary.failed + summary.deferred == summary.orphans,
        deletes(before) && summary.deferred > 0 ==> summary.deleted + summary.failed
            == before.max_deletes,
{
    lemma_successes_bounded(after.orphans, after.results);
}

/// A round that found a build already running when it began deletes nothing.
pub proof fn law_running_build_holds_deletes(
    builds: Builds,
    oldest: Option<SystemTime>,
    id: u64,
    begun: SearchSegmentGcRound,
    round: SearchSegmentGcRound,
    keep: Set<Seq<char>>,
    listing: Seq<ObjectListing>,
    before: Progress,
    after: Progress,
    summary: SearchSegmentGcSummary,
)
    requires
        is_oldest(builds, oldest),
        builds.started.contains_key(id),
        builds.started[id]@ <= begun.now()@,
        round.now() == begun.now(),
        round.held() == (begun.held() || (oldest matches Some(started) && started@
            <= begun.now()@)),
        planned(before, round, keep, listing),
        carried_out(before, after),
        sums_up(summary, after),
    ensures
        after.results.len() == 0,
        summary.deleted == 0,
        summary.failed == 0,
{
    assert(builds.started.dom().contains(id));
    lemma_successes_bounded(after.orphans, after.results);
}

/// Every listed object shows up in the summary once.
pub proof fn law_summary_counts_every_object(
    round: SearchSegmentGcRound,
    keep: Set<Seq<char>>,
    listing: Seq<ObjectListing>,
    before: Progress,
    after: Progress,
    summary: SearchSegmentGcSummary,
)
    requires
        planned(before, round, keep, listing),
        carried_out(before, after),
        sums_up(summary, after),
    ensures
        summary.referenced + summary.too_young + summary.orphans == summary.listed,
        summary.listed == listing.len(),
{
    lemma_split_counts(listing, keep, round.now(), round.config().min_object_age);
}

/// Deletes go in the order of the keys, smallest first.
pub proof fn law_deletes_in_key_order(
    round: SearchSegmentGcRound,
    keep: Set<Seq<char>>,
    listing: Seq<ObjectListing>,
    before: Progress,
    after: Progress,
    i: int,
    j: int,
)
    requires
        planned(before, round, keep, listing),
        carried_out(before, after),
        0 <= i < j < after.results.len(),
    ensures
        crate::text::str_at_most(after.orphans[i].key@, after.orphans[j].key@),
{
    assert(sorted_by_key(after.orphans));
}

/// A dry run shows what the same round would delete: whatever the two modes are,
/// the same objects are listed, referenced, too young and orphaned, in the same
/// order, and the rounds end the same way.
pub proof fn law_dry_run_previews_delete(
    dry: SearchSegmentGcRound,
    wet: SearchSegmentGcRound,
    keep: Set<Seq<char>>,
    listing: Seq<ObjectListing>,
    previewed: Progress,
    deleting: Progress,
)
    requires
        dry.now() == wet.now(),
        dry.config().min_object_age == wet.config().min_object_age,
        planned(previewed, dry, keep, listing),
        planned(deleting, wet, keep, listing),
    ensures
        previewed.orphans == deleting.orphans,
        previewed.listed == deleting.listed,
        previewed.referenced == deleting.referenced,
        previewed.too_young == deleting.too_young,
        previewed.outcome == deleting.outcome,
{
    let orphans = orphans_of(listing, keep, dry.now(), dry.config().min_object_age);
    assert forall|key: Seq<char>| #[trigger] previewed.orphans.filter(has_key(key))
        == deleting.orphans.filter(has_key(key)) by {
        assert(orphans.filter(has_key(key)) == previewed.orphans.filter(has_key(key)));
    }
    law_stable_sort_unique(previewed.orphans, deleting.orphans);
}

/// No two objects share a key.
pub open spec fn keys_distinct(listing: Seq<ObjectListing>) -> bool {
    forall|i: int, j: int|
        0 <= i < j < listing.len() ==> (#[trigger] listing[i]).key@ != (#[trigger] listing[j]).key@
}

proof fn lemma_alone_under_key(
    listing: Seq<ObjectListing>,
    pred: spec_fn(ObjectListing) -> bool,
    object: ObjectListing,
)
    requires
        keys_distinct(listing),
    ensures
        listing.contains(object) && pred(object) ==> listing.filter(pred).filter(
            has_key(object.key@),
        ) == seq![object],
    decreases listing.len(),
{
    if listing.contains(object) && pred(object) {
        let key = object.key@;
        let kept = listing.filter(pred).filter(has_key(key));
        assert forall|x: ObjectListing| #[trigger] kept.contains(x) <==> x == object by {
            crate::seqs::lemma_filter_members(listing.filter(pred), has_key(key), x);
            crate::seqs::lemma_filter_members(listing, pred, x);
            if kept.contains(x) {
                let i = choose|i: int| 0 <= i < listing.len() && listing[i] == x;
                let j = choose|j: int| 0 <= j < listing.len() && listing[j] == object;
                if i < j {
                    assert(listing[i].key@ != listing[j].key@);
                } else if j < i {
                    assert(listing[j].key@ != listing[i].key@);
                }
            }
        }
        lemma_filter_keeps_keys_distinct(listing, pred);
        lemma_filter_keeps_keys_distinct(listing.filter(pred), has_key(key));
        assert(kept.contains(object));
        if kept.len() > 1 {
            assert(kept.contains(kept[0]) && kept.contains(kept[1]));
            assert(kept[0].key@ != kept[1].key@);
        }
        assert(kept.contains(kept[0]));
        assert(kept =~= seq![object]);
    }
}

proof fn lemma_filter_keeps_keys_distinct(
    listing: Seq<ObjectListing>,
    pred: spec_fn(ObjectListing) -> bool,
)
    requires
        keys_distinct(listing),
    ensures
        keys_distinct(listing.filter(pred)),
    decreases listing.len(),
{
    reveal(Seq::filter);
    if listing.len() > 0 {
        let rest = listing.drop_last();
        assert(keys_distinct(rest)) by {
            assert(forall|i: int| 0 <= i < rest.len() ==> rest[i] == listing[i]);
        }
        lemma_filter_keeps_keys_distinct(rest, pred);
        let before = rest.filter(pred);
        assert forall|i: int| 0 <= i < before.len() implies (#[trigger] before[i]).key@
            != listing.last().key@ by {
            crate::seqs::lemma_filter_members(rest, pred, before[i]);
            assert(before.contains(before[i]));
            let j = choose|j: int| 0 <= j < rest.len() && rest[j] == before[i];
            assert(listing[j].key@ != listing[listing.len() - 1].key@);
        }
    }
}

/// The order in which storage lists its objects does not matter: two listings of
/// the same objects, each under a key of its own, have the same orphans in the
/// same order, and so the same digest.
pub proof fn law_listing_order_does_not_matter(
    a: Seq<ObjectListing>,
    b: Seq<ObjectListing>,
    keep: Set<Seq<char>>,
    now: SystemTime,
    min_age: Duration,
    of_a: OrphanSelection,
    of_b: OrphanSelection,
)
    requires
        keys_distinct(a),
        keys_distinct(b),
        forall|object: ObjectListing| #[trigger] a.contains(object) <==> b.contains(object),
        selects(of_a, a, keep, now, min_age),
        selects(of_b, b, keep, now, min_age),
    ensures
        of_a.orphans@ == of_b.orphans@,
{
    let pred = |o: ObjectListing| is_orphan(o, keep, now, min_age);
    assert forall|key: Seq<char>| #[trigger] a.filter(pred).filter(has_key(key)) == b.filter(
        pred,
    ).filter(has_key(key)) by {
        let from_a = a.filter(pred).filter(has_key(key));
        let from_b = b.filter(pred).filter(has_key(key));
        if from_a.len() > 0 {
            let x = from_a[0];
            assert(from_a.contains(x));
            crate::seqs::lemma_filter_members(a.filter(pred), has_key(key), x);
            crate::seqs::lemma_filter_members(a, pred, x);
            lemma_alone_under_key(a, pred, x);
            lemma_alone_under_key(b, pred, x);
        } else if from_b.len() > 0 {
            let x = from_b[0];
            assert(from_b.contains(x));
            crate::seqs::lemma_filter_members(b.filter(pred), has_key(key), x);
            crate::seqs::lemma_filter_members(b, pred, x);
            lemma_alone_under_key(a, pred, x);
            lemma_alone_under_key(b, pred, x);
        } else {
            assert(from_a =~= from_b);
        }
    }
    assert forall|key: Seq<char>| #[trigger] of_a.orphans@.filter(has_key(key))
        == of_b.orphans@.filter(has_key(key)) by {
        assert(orphans_of(a, keep, now, min_age).filter(has_key(key)) == of_a.orphans@.filter(
            has_key(key),
        ));
        assert(orphans_of(b, keep, now, min_age).filter(has_key(key)) == of_b.orphans@.filter(
            has_key(key),
        ));
        assert(a.filter(pred).filter(has_key(key)) == b.filter(pred).filter(has_key(key)));
    }
    law_stable_sort_unique(of_a.orphans@, of_b.orphans@);
}

/// The cap is the one configured. A round attempts no more deletes than that, and
/// in mode delete, with no build running and not refused, it stops short of an
/// orphan only at the cap; what it did not attempt it defers. Any other round
/// attempts none.
pub proof fn law_cap_is_the_configured_one(
    round: SearchSegmentGcRound,
    keep: Set<Seq<char>>,
    listing: Seq<ObjectListing>,
    before: Progress,
    after: Progress,
    summary: SearchSegmentGcSummary,
)
    requires
        planned(before, round, keep, listing),
        carried_out(before, after),
        sums_up(summary, after),
    ensures
        before.results.len() == 0,
        summary.deleted + summary.failed == after.results.len(),
        summary.deleted + summary.failed <= round.config().max_deletes_per_round,
        round.config().mode == SearchSegmentGcMode::Delete && summary.outcome
            == RoundOutcome::Completed && !round.held() ==> {
            &&& summary.deleted + summary.failed + summary.deferred == summary.orphans
            &&& summary.deferred > 0 ==> summary.deleted + summary.failed
                == round.config().max_deletes_per_round
        },
        round.config().mode != SearchSegmentGcMode::Delete || summary.outcome
            == RoundOutcome::Refused ==> {
            &&& summary.deleted + summary.failed == 0
            &&& summary.deferred == 0
        },
        round.held() ==> summary.deleted + summary.failed == 0,
        round.config().mode == SearchSegmentGcMode::Delete && summary.outcome
            == RoundOutcome::Completed && round.held() ==> summary.deferred == summary.orphans,
{
    lemma_successes_bounded(after.orphans, after.results);
}

/// Every listed object that is not kept and at least as old as configured is among
/// the orphans of the round, each as often as it is listed, and no other is.
pub proof fn law_round_finds_every_orphan(
    round: SearchSegmentGcRound,
    keep: Set<Seq<char>>,
    listing: Seq<ObjectListing>,
    before: Progress,
    object: ObjectListing,
)
    requires
        planned(before, round, keep, listing),
    ensures
        before.orphans.contains(object) <==> listing.contains(object) && !keep.contains(object.key@)
            && round.now().nanos - object.last_modified.nanos
            >= round.config().min_object_age.nanos,
        before.orphans.to_multiset() == listing.filter(
            |o: ObjectListing|
                !keep.contains(o.key@) && round.now().nanos - o.last_modified.nanos
                    >= round.config().min_object_age.nanos,
        ).to_multiset(),
{
    let min_age = round.config().min_object_age;
    let pred = |o: ObjectListing| is_orphan(o, keep, round.now(), min_age);
    let orphans = orphans_of(listing, keep, round.now(), min_age);
    law_same_under_each_key_same_objects(orphans, before.orphans, object);
    crate::seqs::lemma_filter_members(listing, pred, object);
    crate::listing::law_same_under_each_key_permutes(orphans, before.orphans);
    assert(pred =~= (|o: ObjectListing|
        !keep.contains(o.key@) && round.now().nanos - o.last_modified.nanos
            >= round.config().min_object_age.nanos));
}

/// With neither a cap in the way nor a build running, a round that is not refused
/// and whose deletes all succeed deletes every listed object that is not kept and
/// old enough, and counts all their bytes.
pub proof fn law_uncapped_round_collects_everything(
    round: SearchSegmentGcRound,
    keep: Set<Seq<char>>,
    listing: Seq<ObjectListing>,
    before: Progress,
    after: Progress,
    summary: SearchSegmentGcSummary,
    object: ObjectListing,
)
    requires
        planned(before, round, keep, listing),
        carried_out(before, after),
        sums_up(summary, after),
        round.config().mode == SearchSegmentGcMode::Delete,
        !round.held(),
        listing.len() <= round.config().max_deletes_per_round,
        exists|i: int| 0 <= i < listing.len() && keep.contains((#[trigger] listing[i]).key@),
        forall|i: int| 0 <= i < after.results.len() ==> #[trigger] after.results[i],
        listing.contains(object),
        !keep.contains(object.key@),
        round.now().nanos - object.last_modified.nanos >= round.config().min_object_age.nanos,
    ensures
        exists|i: int|
            0 <= i < after.results.len() && #[trigger] after.orphans[i] == object
                && after.results[i],
        summary.failed == 0,
        summary.deferred == 0,
        summary.deleted == summary.orphans,
        summary.deleted_bytes == summary.orphan_bytes,
{
    law_refused_round_deletes_nothing(round, keep, listing, before, after, summary);
    law_cap_is_the_configured_one(round, keep, listing, before, after, summary);
    law_summary_counts_every_object(round, keep, listing, before, after, summary);
    law_round_finds_every_orphan(round, keep, listing, before, object);
    let i = choose|i: int| 0 <= i < before.orphans.len() && before.orphans[i] == object;
    assert(after.orphans[i] == object);
    lemma_all_succeeded(after.orphans, after.results);
    assert(after.orphans.take(after.results.len() as int) =~= after.orphans);
    assert(after.results[i]);
}

proof fn lemma_all_succeeded(orphans: Seq<ObjectListing>, results: Seq<bool>)
    requires
        results.len() <= orphans.len(),
        forall|i: int| 0 <= i < results.len() ==> #[trigger] results[i],
    ensures
        successes(results) == results.len(),
        deleted_size(orphans, results) == total_size(orphans.take(results.len() as int)),
    decreases results.len(),
{
    if results.len() > 0 {
        let n = results.len() as int;
        assert(forall|i: int| 0 <= i < n - 1 ==> results.drop_last()[i] == results[i]);
        lemma_all_succeeded(orphans, results.drop_last());
        assert(orphans.take(n).drop_last() =~= orphans.take(n - 1));
        assert(results[n - 1]);
    }
}

/// The summary in the numbers of the listing: how many objects have their key in
/// the keep set, how many others are too young, how many are orphans, and the
/// bytes of those.
pub proof fn law_summary_by_the_listing(
    round: SearchSegmentGcRound,
    keep: Set<Seq<char>>,
    listing: Seq<ObjectListing>,
    before: Progress,
    after: Progress,
    summary: SearchSegmentGcSummary,
)
    requires
        planned(before, round, keep, listing),
        carried_out(before, after),
        sums_up(summary, after),
    ensures
        summary.mode == round.config().mode,
        summary.listed == listing.len(),
        summary.referenced == listing.filter(|o: ObjectListing| keep.contains(o.key@)).len(),
        summary.too_young == listing.filter(
            |o: ObjectListing|
                !keep.contains(o.key@) && round.now().nanos - o.last_modified.nanos
                    < round.config().min_object_age.nanos,
        ).len(),
        summary.orphans == listing.filter(
            |o: ObjectListing|
                !keep.contains(o.key@) && round.now().nanos - o.last_modified.nanos
                    >= round.config().min_object_age.nanos,
        ).len(),
        summary.orphan_bytes == total_size(
            listing.filter(
                |o: ObjectListing|
                    !keep.contains(o.key@) && round.now().nanos - o.last_modified.nanos
                        >= round.config().min_object_age.nanos,
            ),
        ),
{
    let now = round.now();
    let min_age = round.config().min_object_age;
    assert((|o: ObjectListing| is_referenced(o, keep)) =~= (|o: ObjectListing|
        keep.contains(o.key@)));
    assert((|o: ObjectListing| !is_referenced(o, keep) && !is_old_enough(o, now, min_age)) =~= (
    |o: ObjectListing|
        !keep.contains(o.key@) && round.now().nanos - o.last_modified.nanos
            < round.config().min_object_age.nanos));
    assert((|o: ObjectListing| is_orphan(o, keep, now, min_age)) =~= (|o: ObjectListing|
        !keep.contains(o.key@) && round.now().nanos - o.last_modified.nanos
            >= round.config().min_object_age.nanos));
    crate::listing::law_same_under_each_key_permutes(
        orphans_of(listing, keep, now, min_age),
        before.orphans,
    );
}

/// Recording one more delete moves the summary by that delete alone: a success
/// adds one and the bytes of the orphan whose turn it was, a failure adds one to
/// the failed. Before the first there are none.
pub proof fn law_one_more_delete(
    progress: Progress,
    succeeded: bool,
    before: SearchSegmentGcSummary,
    after: SearchSegmentGcSummary,
)
    requires
        progress.results.len() < progress.orphans.len(),
        sums_up(before, progress),
        sums_up(after, Progress { results: progress.results.push(succeeded), ..progress }),
    ensures
        progress.results.len() == 0 ==> before.deleted == 0 && before.failed == 0
            && before.deleted_bytes == 0,
        succeeded ==> {
            &&& after.deleted == before.deleted + 1
            &&& after.failed == before.failed
            &&& after.deleted_bytes == before.deleted_bytes
                + progress.orphans[progress.results.len() as int].size
        },
        !succeeded ==> {
            &&& after.deleted == before.deleted
            &&& after.failed == before.failed + 1
            &&& after.deleted_bytes == before.deleted_bytes
        },
        after.orphans == before.orphans,
        after.orphan_bytes == before.orphan_bytes,
        after.outcome == before.outcome,
        after.mode == before.mode,
{
    crate::round::law_each_delete_counts(progress.orphans, progress.results);
}

/// From the configuration and the oldest build that the round began with to its
/// summary: the round deletes only if the mode says so, something listed is kept,
/// and no build was running when it began; and then it attempts every orphan, or
/// as many as the configured cap.
pub proof fn law_round_from_start_to_end(
    config: SearchSegmentGcConfig,
    now: SystemTime,
    begun: SearchSegmentGcRound,
    oldest: Option<SystemTime>,
    round: SearchSegmentGcRound,
    keep: StringSet,
    listing: Vec<ObjectListing>,
    plan: SearchSegmentGcPlan,
    after: Progress,
    summary: SearchSegmentGcSummary,
)
    requires
        call_ensures(collect_orphaned_search_segments, (config, now), Ok(begun)),
        call_ensures(SearchSegmentGcRound::observe_builds, (begun, oldest), round),
        call_ensures(SearchSegmentGcRound::plan, (round, &keep, listing), plan),
        carried_out(plan@, after),
        sums_up(summary, after),
    ensures
        config.mode != SearchSegmentGcMode::Off,
        plan@.results.len() == 0,
        summary.mode == config.mode,
        summary.deleted + summary.failed == after.results.len(),
        summary.deleted + summary.failed <= config.max_deletes_per_round,
        forall|object: ObjectListing| #[trigger]
            after.orphans.contains(object) <==> listing@.contains(object) && !keep@.contains(
                object.key@,
            ) && now.nanos - object.last_modified.nanos >= config.min_object_age.nanos,
        ({
            let running = oldest matches Some(started) && started.nanos <= now.nanos;
            let deleting = config.mode == SearchSegmentGcMode::Delete && summary.outcome
                == RoundOutcome::Completed;
            &&& !deleting || running ==> summary.deleted + summary.failed == 0
            &&& deleting ==> summary.deleted + summary.failed + summary.deferred == summary.orphans
            &&& !deleting ==> summary.deferred == 0
            &&& deleting && !running && summary.deferred > 0 ==> summary.deleted + summary.failed
                == config.max_deletes_per_round
        }),
{
    law_cap_is_the_configured_one(round, keep@, listing@, plan@, after, summary);
    assert forall|object: ObjectListing| #[trigger] after.orphans.contains(object) <==> (
    listing@.contains(object) && !keep@.contains(object.key@) && now.nanos
        - object.last_modified.nanos >= config.min_object_age.nanos) by {
        law_round_finds_every_orphan(round, keep@, listing@, plan@, object);
    }
}

/// A build once seen running is not forgotten: however often a round takes note of
/// builds, it is held if it was, or if any of them had started when it began. The
/// settings and the instant stay.
pub proof fn law_seen_build_not_forgotten(
    round: SearchSegmentGcRound,
    first: Option<SystemTime>,
    once: SearchSegmentGcRound,
    second: Option<SystemTime>,
    twice: SearchSegmentGcRound,
)
    requires
        call_ensures(SearchSegmentGcRound::observe_builds, (round, first), once),
        call_ensures(SearchSegmentGcRound::observe_builds, (once, second), twice),
    ensures
        twice.held() <==> {
            ||| round.held()
            ||| (first matches Some(started) && started.nanos <= round.now().nanos)
            ||| (second matches Some(started) && started.nanos <= round.now().nanos)
        },
        twice.config() == round.config(),
        twice.now() == round.now(),
{
}

/// What a plan hands out next is the first orphan that was not attempted yet, as
/// long as there is one, the cap is not reached, and the round deletes. Recording
/// how it went moves on to the one behind it.
pub proof fn law_orphans_handed_out_in_turn(
    plan: SearchSegmentGcPlan,
    object: Option<&ObjectListing>,
    succeeded: bool,
    next: SearchSegmentGcPlan,
)
    requires
        call_ensures(SearchSegmentGcPlan::next_delete, (&plan,), object),
        call_ensures(SearchSegmentGcPlan::record, (plan, succeeded), next),
    ensures
        object is Some <==> plan@.mode == SearchSegmentGcMode::Delete && plan@.outcome
            == RoundOutcome::Completed && plan@.results.len() < plan@.max_deletes
            && plan@.results.len() < plan@.orphans.len(),
        object matches Some(o) ==> *o == plan@.orphans[plan@.results.len() as int],
        next@.results == plan@.results.push(succeeded),
        next@.orphans == plan@.orphans,
        next@.max_deletes == plan@.max_deletes,
        next@.mode == plan@.mode,
        next@.outcome == plan@.outcome,
        next.now() == plan.now(),
{
}

/// The first fifty orphans are logged, in order, each under its key and size and
/// with its age in whole seconds.
pub proof fn law_first_orphans_logged(
    plan: SearchSegmentGcPlan,
    logged: Vec<LoggedOrphan>,
    i: int,
)
    requires
        call_ensures(SearchSegmentGcPlan::logged_orphans, (&plan,), logged),
    ensures
        logged@.len() <= 50,
        logged@.len() <= plan@.orphans.len(),
        logged@.len() == 50 || logged@.len() == plan@.orphans.len(),
        0 <= i < logged@.len() ==> {
            let object = plan@.orphans[i];
            &&& logged@[i].key@ == object.key@
            &&& logged@[i].size == object.size
            &&& object.last_modified.nanos <= plan.now().nanos ==> logged@[i].age_seconds
                * 1_000_000_000 <= plan.now().nanos - object.last_modified.nanos < (
            logged@[i].age_seconds + 1) * 1_000_000_000
            &&& object.last_modified.nanos > plan.now().nanos ==> logged@[i].age_seconds == 0
        },
{
    if 0 <= i < logged@.len() {
        crate::round::law_logged_age(logged@[i], plan@.orphans[i], plan.now());
    }
}

/// The bytes of a round's orphans can be counted exactly if those of the objects
/// that are not kept and old enough come to no more than a counter holds.
pub proof fn law_bytes_countable(
    round: SearchSegmentGcRound,
    keep: StringSet,
    listing: Vec<ObjectListing>,
    countable: bool,
)
    requires
        call_ensures(SearchSegmentGcRound::can_count_bytes, (&round, &keep, &listing), countable),
    ensures
        countable <==> total_size(
            listing@.filter(
                |o: ObjectListing|
                    !keep@.contains(o.key@) && round.now().nanos - o.last_modified.nanos
                        >= round.config().min_object_age.nanos,
            ),
        ) <= u64::MAX,
{
    assert((|o: ObjectListing|
        is_orphan(o, keep@, round.now(), round.config().min_object_age)) =~= (|o: ObjectListing|
        !keep@.contains(o.key@) && round.now().nanos - o.last_modified.nanos
            >= round.config().min_object_age.nanos));
}

} // verus!
