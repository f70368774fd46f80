use rust_eze_racing::backend::Backend;
use rust_eze_racing::generator::record_from;
use rust_eze_racing::ingest::{
    apply, span_nanos, write_round, writer, Ingestor, WriteAction, WriteMode, DEFAULT_BATCH_SIZE,
};
use rust_eze_racing::record::TelemetryRecord;
use rust_eze_racing::span::Span;
use rust_eze_racing::table::BackendKind;
use rust_eze_racing::window::{RateReport, ThroughputWindow};

fn sample(n: i32) -> TelemetryRecord {
    record_from(n as u128, n, n, n, n)
}

fn stamped(n: i32, stamp: i64) -> TelemetryRecord {
    let mut record = sample(n);
    record.last_updated = Some(stamp);
    record
}

#[test]
fn single_mode_inserts_each_record() {
    let mut ingestor = Ingestor::new(WriteMode::Single, 0);
    let action = ingestor.offer(sample(3), 1_234);
    assert_eq!(action, WriteAction::Insert(stamped(3, 1_234)));
    assert_eq!(ingestor.buffered(), 0);
}

#[test]
fn offer_stamps_over_any_earlier_stamp() {
    let mut ingestor = Ingestor::new(WriteMode::Single, 0);
    let action = ingestor.offer(stamped(3, 1), 99);
    assert_eq!(action, WriteAction::Insert(stamped(3, 99)));
}

#[test]
fn batch_leaves_when_it_is_full() {
    let mut ingestor = Ingestor::new(WriteMode::Batched { size: 3, max_wait_millis: None }, 0);
    assert_eq!(ingestor.offer(sample(1), 10), WriteAction::Hold);
    assert_eq!(ingestor.buffered(), 1);
    assert_eq!(ingestor.offer(sample(2), 20), WriteAction::Hold);
    assert_eq!(ingestor.buffered(), 2);
    let action = ingestor.offer(sample(3), 30);
    assert_eq!(
        action,
        WriteAction::InsertBatch(vec![stamped(1, 10), stamped(2, 20), stamped(3, 30)])
    );
    assert_eq!(ingestor.buffered(), 0);
    assert_eq!(ingestor.offer(sample(4), 40), WriteAction::Hold);
}

#[test]
fn batch_leaves_when_it_has_waited() {
    let mode = WriteMode::Batched { size: 100, max_wait_millis: Some(50) };
    let mut ingestor = Ingestor::new(mode, 0);
    assert_eq!(ingestor.offer(sample(1), 1_000), WriteAction::Hold);
    assert_eq!(ingestor.offer(sample(2), 1_049), WriteAction::Hold);
    let action = ingestor.offer(sample(3), 1_050);
    assert_eq!(
        action,
        WriteAction::InsertBatch(vec![stamped(1, 1_000), stamped(2, 1_049), stamped(3, 1_050)])
    );
    // the wait of the next batch starts with its own first record
    assert_eq!(ingestor.offer(sample(4), 1_051), WriteAction::Hold);
    assert_eq!(ingestor.offer(sample(5), 1_100), WriteAction::Hold);
    assert_eq!(
        ingestor.offer(sample(6), 1_101),
        WriteAction::InsertBatch(vec![stamped(4, 1_051), stamped(5, 1_100), stamped(6, 1_101)])
    );
}

#[test]
fn batch_of_size_one_or_none_leaves_at_once() {
    for size in [0, 1] {
        let mut ingestor = Ingestor::new(WriteMode::Batched { size, max_wait_millis: None }, 0);
        assert_eq!(ingestor.offer(sample(1), 10), WriteAction::InsertBatch(vec![stamped(1, 10)]));
        assert_eq!(ingestor.buffered(), 0);
    }
}

#[test]
fn flush_hands_out_the_buffer() {
    let mut ingestor = Ingestor::new(WriteMode::Batched { size: 10, max_wait_millis: None }, 0);
    assert_eq!(ingestor.flush(), WriteAction::Hold);
    assert_eq!(ingestor.offer(sample(1), 10), WriteAction::Hold);
    assert_eq!(ingestor.offer(sample(2), 20), WriteAction::Hold);
    assert_eq!(ingestor.flush(), WriteAction::InsertBatch(vec![stamped(1, 10), stamped(2, 20)]));
    assert_eq!(ingestor.buffered(), 0);
    assert_eq!(ingestor.flush(), WriteAction::Hold);
}

#[test]
fn settle_counts_and_reports() {
    let mut ingestor = Ingestor::new(WriteMode::Single, 1_000);
    assert_eq!(ingestor.settle(1, 2_000), None);
    assert_eq!(ingestor.settle(0, 3_000), None);
    assert_eq!(ingestor.settle(4, 4_000), None);
    assert_eq!(ingestor.window(), ThroughputWindow { count: 5, window_start: 1_000 });
    let report = ingestor.settle(1, 2_000_001_000).unwrap();
    assert_eq!(report, RateReport { count: 6, elapsed_nanos: 2_000_000_000 });
    assert_eq!(report.per_second(), 3);
    assert_eq!(ingestor.window(), ThroughputWindow { count: 0, window_start: 2_000_001_000 });
}

#[test]
fn apply_writes_and_counts() {
    let mut backend = Backend::new(BackendKind::WideColumn, true);
    assert_eq!(apply(&mut backend, WriteAction::Hold), 0);
    assert_eq!(apply(&mut backend, WriteAction::Insert(stamped(1, 10))), 1);
    // a record without a stamp is refused: nothing is written, nothing counted
    assert_eq!(apply(&mut backend, WriteAction::Insert(sample(2))), 0);
    assert_eq!(backend.len(), 1);
    let batch = vec![stamped(3, 30), sample(4), stamped(5, 50)];
    assert_eq!(apply(&mut backend, WriteAction::InsertBatch(batch)), 2);
    assert_eq!(backend.len(), 3);
    assert_eq!(backend.row(2).unwrap(), stamped(5, 50));
}

#[test]
fn round_offers_writes_and_counts() {
    let mut ingestor = Ingestor::new(WriteMode::Batched { size: 2, max_wait_millis: None }, 0);
    let mut backend = Backend::new(BackendKind::Relational, false);
    assert_eq!(write_round(&mut ingestor, &mut backend, sample(1), 10, 100), None);
    assert_eq!(backend.len(), 0);
    assert_eq!(ingestor.window().count, 0);
    assert_eq!(write_round(&mut ingestor, &mut backend, sample(2), 20, 200), None);
    assert_eq!(backend.len(), 2);
    assert_eq!(ingestor.window().count, 2);
    assert_eq!(write_round(&mut ingestor, &mut backend, sample(3), 30, 300), None);
    let report = write_round(&mut ingestor, &mut backend, sample(4), 40, 1_000_000_000);
    assert_eq!(report, Some(RateReport { count: 4, elapsed_nanos: 1_000_000_000 }));
    assert_eq!(backend.len(), 4);
    assert_eq!(backend.row(3).unwrap().last_updated, Some(40));
    assert_eq!(backend.row(3).unwrap().id, Some(3));
}

#[test]
fn span_is_turned_into_nanoseconds() {
    assert_eq!(span_nanos(Span { secs: 0, nanos: 0 }), 0);
    assert_eq!(span_nanos(Span { secs: 2, nanos: 5 }), 2_000_000_005);
    assert_eq!(span_nanos(Span { secs: 18_446_744_073, nanos: 709_551_615 }), u64::MAX);
    assert_eq!(span_nanos(Span { secs: 18_446_744_073, nanos: 709_551_616 }), u64::MAX);
    assert_eq!(span_nanos(Span { secs: u64::MAX, nanos: 0 }), u64::MAX);
}

#[test]
fn writer_fills_the_engine_one_by_one() {
    let origin = std::time::Instant::now();
    let mut ingestor = Ingestor::new(WriteMode::Single, 0);
    let mut backend = Backend::new(BackendKind::WideColumn, true);
    let reports = writer(&mut ingestor, &mut backend, &origin, 300);
    assert_eq!(backend.len(), 300);
    assert!(reports.len() <= 300);
    let counted: u64 = reports.iter().map(|r| r.count).sum();
    assert_eq!(counted + ingestor.window().count, 300);
    for i in 0..300 {
        let row = backend.row(i).unwrap();
        assert!(row.is_in_range());
        assert!(row.last_updated.is_some());
        assert!(row.id.is_some());
    }
    let first = backend.row(0).unwrap();
    let again = writer(&mut ingestor, &mut backend, &origin, 5);
    assert!(again.len() <= 5);
    assert_eq!(backend.len(), 305);
    assert_eq!(backend.row(0).unwrap(), first);
}

#[test]
fn writer_fills_the_engine_in_batches_of_a_thousand() {
    assert_eq!(DEFAULT_BATCH_SIZE, 1000);
    let origin = std::time::Instant::now();
    let mode = WriteMode::Batched { size: DEFAULT_BATCH_SIZE, max_wait_millis: None };
    let mut ingestor = Ingestor::new(mode, 0);
    let mut backend = Backend::new(BackendKind::Relational, false);
    writer(&mut ingestor, &mut backend, &origin, 999);
    assert_eq!(backend.len(), 0);
    assert_eq!(ingestor.buffered(), 999);
    writer(&mut ingestor, &mut backend, &origin, 1);
    assert_eq!(backend.len(), 1000);
    assert_eq!(ingestor.buffered(), 0);
    writer(&mut ingestor, &mut backend, &origin, 1500);
    assert_eq!(backend.len(), 2000);
    assert_eq!(ingestor.buffered(), 500);
    assert_eq!(backend.row(1999).unwrap().id, Some(1999));
}

#[test]
fn writer_reports_the_rate_of_a_closed_window() {
    let origin = std::time::Instant::now() - std::time::Duration::from_secs(3);
    let mut ingestor = Ingestor::new(WriteMode::Single, 0);
    let mut backend = Backend::new(BackendKind::Relational, false);
    let reports = writer(&mut ingestor, &mut backend, &origin, 10);
    assert_eq!(reports.len(), 1);
    assert_eq!(reports[0].count, 1);
    assert!(reports[0].elapsed_nanos >= 3_000_000_000);
    assert_eq!(reports[0].per_second(), 0);
    assert_eq!(ingestor.window().count, 9);
}
