use search_segment_gc::config::SearchSegmentGcMode;
use search_segment_gc::metrics::{
    log_exports_s3_cleanup, log_search_segment_gc_objects, log_search_segment_gc_round,
    log_system_table_cleanup_rows, log_tablet_hard_deleted, round_reports,
    search_segment_gc_timer, system_table_cleanup_timer, Counter, CounterIncrement, Histogram,
};
use search_segment_gc::round::{RoundOutcome, SearchSegmentGcSummary};

fn report(counter: Counter, amount: u64, label: Option<&str>) -> CounterIncrement {
    CounterIncrement {
        counter,
        amount,
        label: label.map(str::to_owned),
    }
}

#[test]
fn each_event_is_counted_on_its_counter() {
    assert_eq!(
        log_system_table_cleanup_rows("_exports", 7),
        report(Counter::SystemTableCleanupRowsTotal, 7, Some("_exports"))
    );
    assert_eq!(
        log_exports_s3_cleanup(),
        report(Counter::ExportTableCleanupRowsTotal, 1, None)
    );
    assert_eq!(
        log_search_segment_gc_objects("orphaned", 3),
        report(Counter::SearchSegmentGcObjectsTotal, 3, Some("orphaned"))
    );
    assert_eq!(
        log_search_segment_gc_round("refused"),
        report(Counter::SearchSegmentGcRoundsTotal, 1, Some("refused"))
    );
    assert_eq!(
        log_tablet_hard_deleted(),
        report(Counter::TabletsHardDeletedTotal, 1, None)
    );
}

#[test]
fn timers_report_to_their_histogram() {
    assert_eq!(
        system_table_cleanup_timer().histogram,
        Histogram::SystemTableCleanupSeconds
    );
    assert_eq!(
        search_segment_gc_timer().histogram,
        Histogram::SearchSegmentGcSeconds
    );
}

#[test]
fn metrics_have_names_and_labels() {
    assert_eq!(
        Counter::SearchSegmentGcObjectsTotal.name(),
        "SEARCH_SEGMENT_GC_OBJECTS_TOTAL"
    );
    assert_eq!(Counter::SearchSegmentGcObjectsTotal.label(), Some("outcome"));
    assert_eq!(Counter::SystemTableCleanupRowsTotal.label(), Some("table"));
    assert_eq!(Counter::TabletsHardDeletedTotal.label(), None);
    assert_eq!(
        Histogram::SearchSegmentGcSeconds.name(),
        "SEARCH_SEGMENT_GC_SECONDS"
    );
}

#[test]
fn a_round_reports_its_objects_and_its_outcome() {
    let summary = SearchSegmentGcSummary {
        mode: SearchSegmentGcMode::Delete,
        outcome: RoundOutcome::Completed,
        listed: 20,
        referenced: 5,
        too_young: 2,
        orphans: 13,
        orphan_bytes: 130,
        deleted: 9,
        deleted_bytes: 90,
        failed: 1,
        deferred: 3,
    };
    assert_eq!(
        round_reports(&summary),
        vec![
            report(Counter::SearchSegmentGcObjectsTotal, 13, Some("orphaned")),
            report(Counter::SearchSegmentGcObjectsTotal, 9, Some("deleted")),
            report(Counter::SearchSegmentGcObjectsTotal, 1, Some("failed")),
            report(Counter::SearchSegmentGcRoundsTotal, 1, Some("completed")),
        ]
    );
}
