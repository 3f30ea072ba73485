//! The keep set: every string in any `_index` revision that the database still
//! retains.
//!
//! A scan reads the documents of the current `_index` snapshot and then the
//! revisions written since the document retention floor, each with the revision
//! it replaced. The harvest does not know which fields hold object keys, so a
//! new or renamed metadata field can never silently unprotect a segment. A step
//! that fails consumes the scan: no keep set can come of it.

use vstd::prelude::*;
use crate::string_set::StringSet;
use crate::value::{collect_object_strings, ConvexObject, strings_in_object};

verus! {

/// Every string referenced by an `_index` revision the database still retains,
/// with the bookkeeping needed to explain the round in the log.
#[derive(Debug)]
pub struct KeepSet {
    pub strings: StringSet,
    /// Documents in the `_index` snapshot at `latest_ts`.
    pub snapshot_documents: usize,
    /// Revisions (and replaced revisions) read from the documents log.
    pub log_revisions: usize,
    /// Start of the documents-log range that was read.
    pub floor: u64,
    /// Snapshot timestamp the keep set is complete for.
    pub latest_ts: u64,
}

/// A revision of a document: when it was written, and its value unless the
/// document was deleted or the value is gone.
#[derive(Debug)]
pub struct Revision {
    pub ts: u64,
    pub document: Option<ConvexObject>,
}

/// A revision from the documents log and the revision it replaced.
#[derive(Debug)]
pub struct RevisionPair {
    pub id: String,
    pub rev: Revision,
    pub prev_rev: Option<Revision>,
}

/// Why a scan cannot produce a keep set.
#[derive(Debug, PartialEq, Eq)]
pub enum KeepSetError {
    /// The document retention floor is ahead of the latest snapshot.
    FloorAheadOfSnapshot { floor: u64, latest_ts: u64 },
    /// An `_index` document is not index metadata.
    UnreadableMetadata,
    /// A revision has a replaced revision whose value is gone, so what that
    /// one referenced is not known.
    ReplacedValueGone { id: String, ts: u64, replaced_ts: u64 },
}

/// What a scan has gathered.
pub struct Harvest {
    pub strings: Set<Seq<char>>,
    pub snapshot_documents: nat,
    pub log_revisions: nat,
    pub floor: u64,
    pub latest_ts: u64,
}

impl View for KeepSet {
    type V = Harvest;

    open spec fn view(&self) -> Harvest {
        Harvest {
            strings: self.strings@,
            snapshot_documents: self.snapshot_documents as nat,
            log_revisions: self.log_revisions as nat,
            floor: self.floor,
            latest_ts: self.latest_ts,
        }
    }
}

/// The strings in the value of a revision; none when it has no value.
pub open spec fn strings_in_revision(rev: Revision) -> Set<Seq<char>> {
    match rev.document {
        Some(document) => strings_in_object(document),
        None => Set::empty(),
    }
}

/// The strings in a revision and in the revision it replaced.
pub open spec fn strings_in_pair(pair: RevisionPair) -> Set<Seq<char>> {
    match pair.prev_rev {
        Some(prev) => strings_in_revision(pair.rev).union(strings_in_revision(prev)),
        None => strings_in_revision(pair.rev),
    }
}

/// Whether `pair` replaced a revision whose value is gone.
pub open spec fn replaced_value_gone(pair: RevisionPair) -> bool {
    pair.prev_rev matches Some(prev) && prev.document is None
}

/// How many revisions `pair` adds to the count before it is done or fails.
pub open spec fn revisions_counted(pair: RevisionPair) -> nat {
    if pair.prev_rev is Some && !replaced_value_gone(pair) {
        2
    } else {
        1
    }
}

/// What a scan has gathered before it has read anything.
pub open spec fn nothing_gathered(floor: u64, latest_ts: u64) -> Harvest {
    Harvest {
        strings: Set::empty(),
        snapshot_documents: 0,
        log_revisions: 0,
        floor,
        latest_ts,
    }
}

/// The harvest after a snapshot document.
pub open spec fn with_document(harvest: Harvest, document: ConvexObject) -> Harvest {
    Harvest {
        strings: harvest.strings.union(strings_in_object(document)),
        snapshot_documents: harvest.snapshot_documents + 1,
        ..harvest
    }
}

/// The harvest after a pair from the documents log.
pub open spec fn with_pair(harvest: Harvest, pair: RevisionPair) -> Harvest {
    Harvest {
        strings: harvest.strings.union(strings_in_pair(pair)),
        log_revisions: harvest.log_revisions + revisions_counted(pair),
        ..harvest
    }
}

/// One thing that a scan reads.
pub enum ScanStep {
    /// A document of the snapshot, and whether it parses as index metadata.
    Document { document: ConvexObject, is_index_metadata: bool },
    /// A revision from the documents log and the one it replaced.
    Pair { pair: RevisionPair },
}

/// The strings in what a step reads.
pub open spec fn strings_in_step(step: ScanStep) -> Set<Seq<char>> {
    match step {
        ScanStep::Document { document, .. } => strings_in_object(document),
        ScanStep::Pair { pair } => strings_in_pair(pair),
    }
}

/// Whether a step ends the scan without a keep set.
pub open spec fn fails(step: ScanStep) -> bool {
    match step {
        ScanStep::Document { is_index_metadata, .. } => !is_index_metadata,
        ScanStep::Pair { pair } => replaced_value_gone(pair),
    }
}

/// The harvest after a step that does not fail.
pub open spec fn with_step(harvest: Harvest, step: ScanStep) -> Harvest {
    match step {
        ScanStep::Document { document, .. } => with_document(harvest, document),
        ScanStep::Pair { pair } => with_pair(harvest, pair),
    }
}

/// The harvest after all of `steps`; `None` if one of them fails.
pub open spec fn after_steps(harvest: Harvest, steps: Seq<ScanStep>) -> Option<Harvest>
    decreases steps.len(),
{
    if steps.len() == 0 {
        Some(harvest)
    } else {
        match after_steps(harvest, steps.drop_last()) {
            Some(gathered) if !fails(steps.last()) => Some(with_step(gathered, steps.last())),
            _ => None,
        }
    }
}

/// A scan of `_index` in progress.
#[derive(Debug)]
pub struct KeepSetScan {
    gathered: KeepSet,
}

impl View for KeepSetScan {
    type V = Harvest;

    closed spec fn view(&self) -> Harvest {
        self.gathered@
    }
}

/// Start building the keep set for the snapshot at `latest_ts`, with the
/// documents log read from `floor` on.
pub fn search_segment_keep_set(floor: u64, latest_ts: u64) -> (r: Result<
    KeepSetScan,
    KeepSetError,
>)
    ensures
        floor <= latest_ts ==> (r matches Ok(scan) && scan@ == nothing_gathered(floor, latest_ts)),
        floor > latest_ts ==> r == Err::<KeepSetScan, KeepSetError>(
            KeepSetError::FloorAheadOfSnapshot { floor, latest_ts },
        ),
{
    if floor > latest_ts {
        return Err(KeepSetError::FloorAheadOfSnapshot { floor, latest_ts });
    }
    Ok(
        KeepSetScan {
            gathered: KeepSet {
                strings: StringSet::new(),
                snapshot_documents: 0,
                log_revisions: 0,
                floor,
                latest_ts,
            },
        },
    )
}

impl KeepSetScan {
    /// The snapshot documents read so far.
    pub fn snapshot_documents(&self) -> (n: usize)
        ensures
            n == self@.snapshot_documents,
    {
        self.gathered.snapshot_documents
    }

    /// The revisions read from the documents log so far.
    pub fn log_revisions(&self) -> (n: usize)
        ensures
            n == self@.log_revisions,
    {
        self.gathered.log_revisions
    }

    /// Read a document of the current `_index` snapshot. The strings are the
    /// root set; `is_index_metadata` says whether the document parses as the
    /// metadata format that this scan is written for, and if it does not the
    /// scan ends.
    pub fn snapshot_document(self, document: &ConvexObject, is_index_metadata: bool) -> (r: Result<
        KeepSetScan,
        KeepSetError,
    >)
        requires
            self@.snapshot_documents < usize::MAX,
        ensures
            is_index_metadata ==> (r matches Ok(scan) && scan@ == with_document(self@, *document)),
            !is_index_metadata ==> r == Err::<KeepSetScan, KeepSetError>(
                KeepSetError::UnreadableMetadata,
            ),
    {
        let mut gathered = self.gathered;
        collect_object_strings(document, &mut gathered.strings);
        if !is_index_metadata {
            return Err(KeepSetError::UnreadableMetadata);
        }
        gathered.snapshot_documents = gathered.snapshot_documents + 1;
        Ok(KeepSetScan { gathered })
    }

    /// Read a revision from the documents log and the revision it replaced.
    /// The replaced one is what makes the set complete for readers at an older
    /// snapshot: a segment that was swapped out a moment ago shows up there.
    pub fn revision_pair(self, pair: &RevisionPair) -> (r: Result<KeepSetScan, KeepSetError>)
        requires
            self@.log_revisions + revisions_counted(*pair) <= usize::MAX,
        ensures
            !replaced_value_gone(*pair) ==> (r matches Ok(scan) && scan@ == with_pair(self@, *pair)),
            replaced_value_gone(*pair) ==> r == Err::<KeepSetScan, KeepSetError>(
                KeepSetError::ReplacedValueGone {
                    id: pair.id,
                    ts: pair.rev.ts,
                    replaced_ts: pair.prev_rev->0.ts,
                },
            ),
    {
        let mut gathered = self.gathered;
        if let Some(document) = &pair.rev.document {
            collect_object_strings(document, &mut gathered.strings);
        }
        gathered.log_revisions = gathered.log_revisions + 1;
        assert(gathered.strings@ =~= self@.strings.union(strings_in_revision(pair.rev)));
        if let Some(prev) = &pair.prev_rev {
            match &prev.document {
                None => {
                    return Err(
                        KeepSetError::ReplacedValueGone {
                            id: pair.id.clone(),
                            ts: pair.rev.ts,
                            replaced_ts: prev.ts,
                        },
                    );
                },
                Some(document) => {
                    collect_object_strings(document, &mut gathered.strings);
                    gathered.log_revisions = gathered.log_revisions + 1;
                },
            }
        }
        assert(gathered.strings@ =~= self@.strings.union(strings_in_pair(*pair)));
        Ok(KeepSetScan { gathered })
    }

    /// The keep set, once the snapshot and the log have been read to the end.
    pub fn finish(self) -> (keep: KeepSet)
        ensures
            keep@ == self@,
            keep.strings@ == self@.strings,
            keep.snapshot_documents == self@.snapshot_documents,
            keep.log_revisions == self@.log_revisions,
            keep.floor == self@.floor,
            keep.latest_ts == self@.latest_ts,
    {
        self.gathered
    }
}

/// A scan that was not ended by a failing step has gathered every string in
/// every document, revision and replaced revision that it read, and nothing else.
pub proof fn law_keep_set_complete(
    floor: u64,
    latest_ts: u64,
    steps: Seq<ScanStep>,
    harvest: Harvest,
    s: Seq<char>,
)
    requires
        after_steps(nothing_gathered(floor, latest_ts), steps) == Some(harvest),
    ensures
        harvest.strings.contains(s) <==> (exists|i: int|
            0 <= i < steps.len() && strings_in_step(#[trigger] steps[i]).contains(s)),
    decreases steps.len(),
{
    if steps.len() > 0 {
        let rest = steps.drop_last();
        let before = after_steps(nothing_gathered(floor, latest_ts), rest)->0;
        law_keep_set_complete(floor, latest_ts, rest, before, s);
        assert(harvest.strings.contains(s) <==> before.strings.contains(s) || strings_in_step(
            steps.last(),
        ).contains(s));
        if before.strings.contains(s) {
            let i = choose|i: int|
                0 <= i < rest.len() && strings_in_step(#[trigger] rest[i]).contains(s);
            assert(steps[i] == rest[i]);
        }
        if exists|i: int| 0 <= i < steps.len() && strings_in_step(#[trigger] steps[i]).contains(s) {
            let i = choose|i: int|
                0 <= i < steps.len() && strings_in_step(#[trigger] steps[i]).contains(s);
            if i < rest.len() {
                assert(rest[i] == steps[i]);
            }
        }
        assert(steps[steps.len() - 1] == steps.last());
    }
}

/// A scan produces a keep set exactly if no step fails: a metadata format that
/// is not understood, or a replaced revision whose value is gone, stops the
/// round whatever else was read.
pub proof fn law_any_failure_stops_the_scan(harvest: Harvest, steps: Seq<ScanStep>)
    ensures
        after_steps(harvest, steps) is None <==> (exists|i: int|
            0 <= i < steps.len() && fails(#[trigger] steps[i])),
    decreases steps.len(),
{
    if steps.len() > 0 {
        let rest = steps.drop_last();
        law_any_failure_stops_the_scan(harvest, rest);
        if exists|i: int| 0 <= i < rest.len() && fails(#[trigger] rest[i]) {
            let i = choose|i: int| 0 <= i < rest.len() && fails(#[trigger] rest[i]);
            assert(fails(steps[i]));
        }
        if exists|i: int| 0 <= i < steps.len() && fails(#[trigger] steps[i]) {
            let i = choose|i: int| 0 <= i < steps.len() && fails(#[trigger] steps[i]);
            if i < rest.len() {
                assert(fails(rest[i]));
            }
        }
        assert(steps[steps.len() - 1] == steps.last());
    }
}

/// What a scan has gathered it keeps: no later step takes a string out.
pub proof fn law_scan_only_grows(harvest: Harvest, step: ScanStep, s: Seq<char>)
    requires
        harvest.strings.contains(s),
    ensures
        with_step(harvest, step).strings.contains(s),
{
}

/// A keep set shows the strings, counts and timestamps that its fields hold.
pub proof fn law_keep_set_shows_its_fields(keep: KeepSet)
    ensures
        keep@.strings == keep.strings@,
        keep@.snapshot_documents == keep.snapshot_documents,
        keep@.log_revisions == keep.log_revisions,
        keep@.floor == keep.floor,
        keep@.latest_ts == keep.latest_ts,
{
}

/// A scan that has read nothing keeps no string and has counted nothing.
pub proof fn law_scan_starts_empty(floor: u64, latest_ts: u64)
    ensures
        nothing_gathered(floor, latest_ts).strings == Set::<Seq<char>>::empty(),
        nothing_gathered(floor, latest_ts).snapshot_documents == 0,
        nothing_gathered(floor, latest_ts).log_revisions == 0,
        nothing_gathered(floor, latest_ts).floor == floor,
        nothing_gathered(floor, latest_ts).latest_ts == latest_ts,
{
}

/// A snapshot document adds its own strings and one to the count of documents,
/// and leaves everything else.
pub proof fn law_document_adds_its_strings(harvest: Harvest, document: ConvexObject)
    ensures
        with_document(harvest, document).strings == harvest.strings.union(
            strings_in_object(document),
        ),
        with_document(harvest, document).snapshot_documents == harvest.snapshot_documents + 1,
        with_document(harvest, document).log_revisions == harvest.log_revisions,
        with_document(harvest, document).floor == harvest.floor,
        with_document(harvest, document).latest_ts == harvest.latest_ts,
{
}

/// A pair adds every string in the value of its revision and every string in the
/// value of the revision that one replaced, whatever their timestamps, and no
/// other.
pub proof fn law_pair_adds_both_values(harvest: Harvest, pair: RevisionPair, s: Seq<char>)
    ensures
        with_pair(harvest, pair).strings.contains(s) <==> {
            ||| harvest.strings.contains(s)
            ||| (pair.rev.document matches Some(document) && strings_in_object(document).contains(s))
            ||| (pair.prev_rev matches Some(prev) && (prev.document matches Some(document)
                && strings_in_object(document).contains(s)))
        },
{
}

/// A pair whose values are there counts one revision, and one more for a revision
/// it replaced. The count of documents and the timestamps stay.
pub proof fn law_pair_counts_its_revisions(harvest: Harvest, pair: RevisionPair)
    ensures
        pair.prev_rev is None ==> with_pair(harvest, pair).log_revisions == harvest.log_revisions
            + 1,
        (pair.prev_rev matches Some(prev) && prev.document is Some) ==> with_pair(
            harvest,
            pair,
        ).log_revisions == harvest.log_revisions + 2,
        with_pair(harvest, pair).snapshot_documents == harvest.snapshot_documents,
        with_pair(harvest, pair).floor == harvest.floor,
        with_pair(harvest, pair).latest_ts == harvest.latest_ts,
{
}

/// A pair stops the scan exactly if there is a replaced revision without a value.
/// That its own revision has none, as a deleted document's, does not.
pub proof fn law_pair_fails_exactly(id: String, rev: Revision, replaced_ts: u64, value: ConvexObject)
    ensures
        !replaced_value_gone(RevisionPair { id, rev, prev_rev: None }),
        !replaced_value_gone(
            RevisionPair {
                id,
                rev,
                prev_rev: Some(Revision { ts: replaced_ts, document: Some(value) }),
            },
        ),
        replaced_value_gone(
            RevisionPair {
                id,
                rev,
                prev_rev: Some(Revision { ts: replaced_ts, document: None }),
            },
        ),
{
}

/// Every string in every value that a scan read is in what it gathered: of each
/// snapshot document, of each revision, and of each revision that one replaced.
pub proof fn law_scan_keeps_every_value(
    floor: u64,
    latest_ts: u64,
    steps: Seq<ScanStep>,
    harvest: Harvest,
    i: int,
)
    requires
        after_steps(nothing_gathered(floor, latest_ts), steps) == Some(harvest),
        0 <= i < steps.len(),
    ensures
        match steps[i] {
            ScanStep::Document { document, .. } => strings_in_object(document).subset_of(
                harvest.strings,
            ),
            ScanStep::Pair { pair } => {
                &&& pair.rev.document matches Some(document) ==> strings_in_object(
                    document,
                ).subset_of(harvest.strings)
                &&& pair.prev_rev matches Some(prev) ==> (prev.document matches Some(document)
                    ==> strings_in_object(document).subset_of(harvest.strings))
            },
        },
{
    assert forall|s: Seq<char>| #[trigger]
        strings_in_step(steps[i]).contains(s) implies harvest.strings.contains(s) by {
        law_keep_set_complete(floor, latest_ts, steps, harvest, s);
    }
    match steps[i] {
        ScanStep::Document { document, .. } => {
            assert(strings_in_step(steps[i]) == strings_in_object(document));
        },
        ScanStep::Pair { pair } => {
            assert(strings_in_step(steps[i]) == strings_in_pair(pair));
            assert(strings_in_revision(pair.rev).subset_of(strings_in_pair(pair)));
            if let Some(prev) = pair.prev_rev {
                assert(strings_in_revision(prev).subset_of(strings_in_pair(pair)));
            }
        },
    }
}

/// A scan comes to no keep set exactly if some snapshot document is not index
/// metadata or some replaced revision has no value.
pub proof fn law_scan_fails_exactly(harvest: Harvest, steps: Seq<ScanStep>)
    ensures
        after_steps(harvest, steps) is None <==> (exists|i: int|
            0 <= i < steps.len() && (match #[trigger] steps[i] {
                ScanStep::Document { is_index_metadata, .. } => !is_index_metadata,
                ScanStep::Pair { pair } => pair.prev_rev matches Some(prev) && prev.document is None,
            })),
{
    law_any_failure_stops_the_scan(harvest, steps);
    if exists|i: int| 0 <= i < steps.len() && fails(#[trigger] steps[i]) {
        let i = choose|i: int| 0 <= i < steps.len() && fails(#[trigger] steps[i]);
        assert(match steps[i] {
            ScanStep::Document { is_index_metadata, .. } => !is_index_metadata,
            ScanStep::Pair { pair } => pair.prev_rev matches Some(prev) && prev.document is None,
        });
    }
}

/// A scan begins exactly if the log does not start behind the snapshot, and then
/// it has gathered nothing.
pub proof fn law_scan_begins(floor: u64, latest_ts: u64, r: Result<KeepSetScan, KeepSetError>)
    requires
        call_ensures(search_segment_keep_set, (floor, latest_ts), r),
    ensures
        r is Ok <==> floor <= latest_ts,
        r matches Ok(scan) ==> {
            &&& forall|s: Seq<char>| !(#[trigger] scan@.strings.contains(s))
            &&& scan@.snapshot_documents == 0
            &&& scan@.log_revisions == 0
            &&& scan@.floor == floor
            &&& scan@.latest_ts == latest_ts
        },
        r matches Err(e) ==> e == (KeepSetError::FloorAheadOfSnapshot { floor, latest_ts }),
{
}

/// Reading a snapshot document fails exactly if it is not index metadata; else
/// the scan keeps what it had and every string in the document, and no other.
pub proof fn law_reading_a_document(
    scan: KeepSetScan,
    document: ConvexObject,
    is_index_metadata: bool,
    r: Result<KeepSetScan, KeepSetError>,
    s: Seq<char>,
)
    requires
        call_ensures(KeepSetScan::snapshot_document, (scan, &document, is_index_metadata), r),
    ensures
        r is Ok <==> is_index_metadata,
        r matches Err(e) ==> e == KeepSetError::UnreadableMetadata,
        r matches Ok(next) ==> {
            &&& next@.strings.contains(s) <==> scan@.strings.contains(s) || strings_in_object(
                document,
            ).contains(s)
            &&& next@.snapshot_documents == scan@.snapshot_documents + 1
            &&& next@.log_revisions == scan@.log_revisions
            &&& next@.floor == scan@.floor
            &&& next@.latest_ts == scan@.latest_ts
        },
{
}

/// Reading a pair fails exactly if a replaced revision has no value; else the scan
/// keeps what it had, every string in the value of the revision and every string
/// in the value it replaced, whatever the timestamps, and no other.
pub proof fn law_reading_a_pair(
    scan: KeepSetScan,
    pair: RevisionPair,
    r: Result<KeepSetScan, KeepSetError>,
    s: Seq<char>,
)
    requires
        call_ensures(KeepSetScan::revision_pair, (scan, &pair), r),
    ensures
        r is Err <==> (pair.prev_rev matches Some(prev) && prev.document is None),
        r matches Err(e) ==> e == (KeepSetError::ReplacedValueGone {
            id: pair.id,
            ts: pair.rev.ts,
            replaced_ts: pair.prev_rev->0.ts,
        }),
        r matches Ok(next) ==> {
            &&& next@.strings.contains(s) <==> {
                ||| scan@.strings.contains(s)
                ||| (pair.rev.document matches Some(document) && strings_in_object(
                    document,
                ).contains(s))
                ||| (pair.prev_rev matches Some(prev) && (prev.document matches Some(document)
                    && strings_in_object(document).contains(s)))
            }
            &&& next@.log_revisions == scan@.log_revisions + (if pair.prev_rev is Some {
                2int
            } else {
                1
            })
            &&& next@.snapshot_documents == scan@.snapshot_documents
            &&& next@.floor == scan@.floor
            &&& next@.latest_ts == scan@.latest_ts
        },
{
}

/// The keep set of a scan holds what the scan gathered.
pub proof fn law_finished_scan(scan: KeepSetScan, keep: KeepSet)
    requires
        call_ensures(KeepSetScan::finish, (scan,), keep),
    ensures
        keep.strings@ == scan@.strings,
        keep.snapshot_documents == scan@.snapshot_documents,
        keep.log_revisions == scan@.log_revisions,
        keep.floor == scan@.floor,
        keep.latest_ts == scan@.latest_ts,
{
}

} // verus!
