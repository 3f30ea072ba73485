//! The metrics of system table cleanup: what there is to report, and each report
//! as a value. Sending it is left to the caller.

use vstd::prelude::*;
use crate::round::{outcome_name, SearchSegmentGcSummary};

verus! {

/// The counters.
#[derive(Clone, Copy, Debug, PartialEq, Eq, Structural)]
pub enum Counter {
    SystemTableCleanupRowsTotal,
    ExportTableCleanupRowsTotal,
    SearchSegmentGcObjectsTotal,
    SearchSegmentGcRoundsTotal,
    TabletsHardDeletedTotal,
}

/// The histograms.
#[derive(Clone, Copy, Debug, PartialEq, Eq, Structural)]
pub enum Histogram {
    SystemTableCleanupSeconds,
    SystemTableCleanupCursorLagSeconds,
    SearchSegmentGcSeconds,
}

/// A counter goes up by `amount`, under a label with the value `label` if the
/// counter has one.
#[derive(Debug, PartialEq, Eq)]
pub struct CounterIncrement {
    pub counter: Counter,
    pub amount: u64,
    pub label: Option<String>,
}

/// A timer that reports how long it has run to a histogram.
#[derive(Clone, Copy, Debug, PartialEq, Eq, Structural)]
pub struct Timer {
    pub histogram: Histogram,
}

/// The name of the one label of a counter, if it has one.
pub open spec fn counter_label(counter: Counter) -> Option<Seq<char>> {
    match counter {
        Counter::SystemTableCleanupRowsTotal => Some("table"@),
        Counter::SearchSegmentGcObjectsTotal => Some("outcome"@),
        Counter::SearchSegmentGcRoundsTotal => Some("outcome"@),
        Counter::ExportTableCleanupRowsTotal => None,
        Counter::TabletsHardDeletedTotal => None,
    }
}

/// A label's value as a sequence of characters.
pub open spec fn label_value(label: Option<String>) -> Option<Seq<char>> {
    match label {
        Some(value) => Some(value@),
        None => None,
    }
}

/// `report` counts `amount` on `counter`, under the label `label` if there is one.
pub open spec fn counts(
    report: CounterIncrement,
    counter: Counter,
    amount: int,
    label: Option<Seq<char>>,
) -> bool {
    &&& report.counter == counter
    &&& report.amount == amount
    &&& label_value(report.label) == label
}

/// `report` has a label exactly if its counter has one.
pub open spec fn is_labelled_rightly(report: CounterIncrement) -> bool {
    report.label is Some <==> counter_label(report.counter) is Some
}

impl Counter {
    /// What the counter is registered as.
    pub fn name(self) -> (name: &'static str)
        ensures
            name@ == counter_name(self),
    {
        match self {
            Counter::SystemTableCleanupRowsTotal => "SYSTEM_TABLE_CLEANUP_ROWS_TOTAL",
            Counter::ExportTableCleanupRowsTotal => "EXPORT_TABLE_CLEANUP_ROWS_TOTAL",
            Counter::SearchSegmentGcObjectsTotal => "SEARCH_SEGMENT_GC_OBJECTS_TOTAL",
            Counter::SearchSegmentGcRoundsTotal => "SEARCH_SEGMENT_GC_ROUNDS_TOTAL",
            Counter::TabletsHardDeletedTotal => "TABLETS_HARD_DELETED_TOTAL",
        }
    }

    /// The name of its label, if it has one.
    pub fn label(self) -> (label: Option<&'static str>)
        ensures
            counter_label(self) is Some <==> label is Some,
            label matches Some(name) ==> counter_label(self) == Some(name@),
    {
        match self {
            Counter::SystemTableCleanupRowsTotal => Some("table"),
            Counter::SearchSegmentGcObjectsTotal => Some("outcome"),
            Counter::SearchSegmentGcRoundsTotal => Some("outcome"),
            Counter::ExportTableCleanupRowsTotal => None,
            Counter::TabletsHardDeletedTotal => None,
        }
    }
}

/// What a counter is registered as.
pub open spec fn counter_name(counter: Counter) -> Seq<char> {
    match counter {
        Counter::SystemTableCleanupRowsTotal => "SYSTEM_TABLE_CLEANUP_ROWS_TOTAL"@,
        Counter::ExportTableCleanupRowsTotal => "EXPORT_TABLE_CLEANUP_ROWS_TOTAL"@,
        Counter::SearchSegmentGcObjectsTotal => "SEARCH_SEGMENT_GC_OBJECTS_TOTAL"@,
        Counter::SearchSegmentGcRoundsTotal => "SEARCH_SEGMENT_GC_ROUNDS_TOTAL"@,
        Counter::TabletsHardDeletedTotal => "TABLETS_HARD_DELETED_TOTAL"@,
    }
}

/// What a histogram is registered as.
pub open spec fn histogram_name(histogram: Histogram) -> Seq<char> {
    match histogram {
        Histogram::SystemTableCleanupSeconds => "SYSTEM_TABLE_CLEANUP_SECONDS"@,
        Histogram::SystemTableCleanupCursorLagSeconds => "SYSTEM_TABLE_CLEANUP_CURSOR_LAG_SECONDS"@,
        Histogram::SearchSegmentGcSeconds => "SEARCH_SEGMENT_GC_SECONDS"@,
    }
}

impl Histogram {
    /// What the histogram is registered as.
    pub fn name(self) -> (name: &'static str)
        ensures
            name@ == histogram_name(self),
    {
        match self {
            Histogram::SystemTableCleanupSeconds => "SYSTEM_TABLE_CLEANUP_SECONDS",
            Histogram::SystemTableCleanupCursorLagSeconds => {
                "SYSTEM_TABLE_CLEANUP_CURSOR_LAG_SECONDS"
            },
            Histogram::SearchSegmentGcSeconds => "SEARCH_SEGMENT_GC_SECONDS",
        }
    }
}

/// A timer for the duration of system table cleanup.
pub fn system_table_cleanup_timer() -> (timer: Timer)
    ensures
        timer.histogram == Histogram::SystemTableCleanupSeconds,
{
    Timer { histogram: Histogram::SystemTableCleanupSeconds }
}

/// `rows` were cleaned up in the system table `table_name`.
pub fn log_system_table_cleanup_rows(table_name: &str, rows: usize) -> (report: CounterIncrement)
    ensures
        counts(report, Counter::SystemTableCleanupRowsTotal, rows as int, Some(table_name@)),
        is_labelled_rightly(report),
{
    CounterIncrement {
        counter: Counter::SystemTableCleanupRowsTotal,
        amount: rows as u64,
        label: Some(table_name.to_owned()),
    }
}

/// A row was cleaned up in the `_exports` table.
pub fn log_exports_s3_cleanup() -> (report: CounterIncrement)
    ensures
        counts(report, Counter::ExportTableCleanupRowsTotal, 1, None),
        is_labelled_rightly(report),
{
    CounterIncrement { counter: Counter::ExportTableCleanupRowsTotal, amount: 1, label: None }
}

/// `count` search storage objects were handled by the search segment garbage
/// collector with the given outcome (orphaned, deleted, failed).
pub fn log_search_segment_gc_objects(outcome: &'static str, count: u64) -> (report:
    CounterIncrement)
    ensures
        counts(report, Counter::SearchSegmentGcObjectsTotal, count as int, Some(outcome@)),
        is_labelled_rightly(report),
{
    CounterIncrement {
        counter: Counter::SearchSegmentGcObjectsTotal,
        amount: count,
        label: Some(outcome.to_owned()),
    }
}

/// A search segment garbage collection round reached a verdict (completed,
/// refused).
pub fn log_search_segment_gc_round(outcome: &'static str) -> (report: CounterIncrement)
    ensures
        counts(report, Counter::SearchSegmentGcRoundsTotal, 1, Some(outcome@)),
        is_labelled_rightly(report),
{
    CounterIncrement {
        counter: Counter::SearchSegmentGcRoundsTotal,
        amount: 1,
        label: Some(outcome.to_owned()),
    }
}

/// A timer for the duration of one search segment garbage collection round.
pub fn search_segment_gc_timer() -> (timer: Timer)
    ensures
        timer.histogram == Histogram::SearchSegmentGcSeconds,
{
    Timer { histogram: Histogram::SearchSegmentGcSeconds }
}

/// A tablet document was deleted from `_tables`.
pub fn log_tablet_hard_deleted() -> (report: CounterIncrement)
    ensures
        counts(report, Counter::TabletsHardDeletedTotal, 1, None),
        is_labelled_rightly(report),
{
    CounterIncrement { counter: Counter::TabletsHardDeletedTotal, amount: 1, label: None }
}

/// What a round reports: its orphaned, deleted and failed objects, and how it
/// ended.
pub fn round_reports(summary: &SearchSegmentGcSummary) -> (reports: Vec<CounterIncrement>)
    ensures
        reports@.len() == 4,
        counts(
            reports@[0],
            Counter::SearchSegmentGcObjectsTotal,
            summary.orphans as int,
            Some("orphaned"@),
        ),
        counts(
            reports@[1],
            Counter::SearchSegmentGcObjectsTotal,
            summary.deleted as int,
            Some("deleted"@),
        ),
        counts(
            reports@[2],
            Counter::SearchSegmentGcObjectsTotal,
            summary.failed as int,
            Some("failed"@),
        ),
        counts(
            reports@[3],
            Counter::SearchSegmentGcRoundsTotal,
            1,
            Some(outcome_name(summary.outcome)),
        ),
        forall|i: int| 0 <= i < 4 ==> is_labelled_rightly(#[trigger] reports@[i]),
{
    let mut reports: Vec<CounterIncrement> = Vec::new();
    reports.push(log_search_segment_gc_objects("orphaned", summary.orphans as u64));
    reports.push(log_search_segment_gc_objects("deleted", summary.deleted as u64));
    reports.push(log_search_segment_gc_objects("failed", summary.failed as u64));
    reports.push(log_search_segment_gc_round(summary.outcome.as_str()));
    reports
}

/// A report that counts on a counter names that counter, the amount, and the label
/// value if there is one.
pub proof fn law_report_says_what_it_counts(
    report: CounterIncrement,
    counter: Counter,
    amount: int,
    label: Option<Seq<char>>,
)
    requires
        counts(report, counter, amount, label),
    ensures
        report.counter == counter,
        report.amount == amount,
        report.label is Some <==> label is Some,
        report.label matches Some(value) ==> label == Some(value@),
{
}

/// The counters' names and labels.
pub proof fn law_counters_registered()
    ensures
        counter_name(Counter::SystemTableCleanupRowsTotal) == "SYSTEM_TABLE_CLEANUP_ROWS_TOTAL"@,
        counter_name(Counter::ExportTableCleanupRowsTotal) == "EXPORT_TABLE_CLEANUP_ROWS_TOTAL"@,
        counter_name(Counter::SearchSegmentGcObjectsTotal) == "SEARCH_SEGMENT_GC_OBJECTS_TOTAL"@,
        counter_name(Counter::SearchSegmentGcRoundsTotal) == "SEARCH_SEGMENT_GC_ROUNDS_TOTAL"@,
        counter_name(Counter::TabletsHardDeletedTotal) == "TABLETS_HARD_DELETED_TOTAL"@,
        counter_label(Counter::SystemTableCleanupRowsTotal) == Some("table"@),
        counter_label(Counter::SearchSegmentGcObjectsTotal) == Some("outcome"@),
        counter_label(Counter::SearchSegmentGcRoundsTotal) == Some("outcome"@),
        counter_label(Counter::ExportTableCleanupRowsTotal) is None,
        counter_label(Counter::TabletsHardDeletedTotal) is None,
{
}

/// The histograms' names.
pub proof fn law_histograms_registered()
    ensures
        histogram_name(Histogram::SystemTableCleanupSeconds) == "SYSTEM_TABLE_CLEANUP_SECONDS"@,
        histogram_name(Histogram::SystemTableCleanupCursorLagSeconds)
            == "SYSTEM_TABLE_CLEANUP_CURSOR_LAG_SECONDS"@,
        histogram_name(Histogram::SearchSegmentGcSeconds) == "SEARCH_SEGMENT_GC_SECONDS"@,
{
}

/// A round reports its orphans, its deleted and its failed objects, each under a
/// label of its own, and once how it ended.
pub proof fn law_round_reported(summary: SearchSegmentGcSummary, reports: Vec<CounterIncrement>)
    requires
        call_ensures(round_reports, (&summary,), reports),
    ensures
        reports@.len() == 4,
        forall|i: int|
            0 <= i < 3 ==> (#[trigger] reports@[i]).counter == Counter::SearchSegmentGcObjectsTotal,
        reports@[3].counter == Counter::SearchSegmentGcRoundsTotal,
        reports@[0].amount == summary.orphans,
        reports@[0].label matches Some(label) && label@ == "orphaned"@,
        reports@[1].amount == summary.deleted,
        reports@[1].label matches Some(label) && label@ == "deleted"@,
        reports@[2].amount == summary.failed,
        reports@[2].label matches Some(label) && label@ == "failed"@,
        reports@[3].amount == 1,
        reports@[3].label matches Some(label) && label@ == outcome_name(summary.outcome),
{
}

} // verus!
