//! The ingestion loop, one round at a time: a record is stamped and either
//! handed on at once or gathered into a batch; what was written is counted
//! in the throughput window.

use vstd::prelude::*;
use crate::backend::{record_views, Backend};
use crate::clock::{stopwatch_elapsed, wall_clock_millis};
use crate::generator::generate;
use crate::record::{RecordData, TelemetryRecord};
use crate::span::Span;
use crate::table::{
    after_insert, batch_accounts_for_every_record, batch_failed, batch_rows,
    lemma_refused_indices, lemma_rows_written_len, refused_indices, write_refusal, BackendData,
    BackendKind,
};
use crate::window::{counted, fresh, observed, RateReport, ThroughputWindow, WINDOW_NANOS};

verus! {

/// Batch size that the design starts from.
pub const DEFAULT_BATCH_SIZE: usize = 1000;

/// How the loop hands records to the engine.
#[derive(Clone, Copy, Debug, PartialEq, Eq)]
pub enum WriteMode {
    /// One insert per record.
    Single,
    /// Records gather in a buffer. It is flushed as one batch when it holds
    /// `size` records, and, where `max_wait_millis` is set, when its oldest
    /// record has waited that long.
    Batched { size: usize, max_wait_millis: Option<u64> },
}

/// What the loop has to do with the engine in this round.
#[derive(Clone, Debug, PartialEq, Eq)]
pub enum WriteAction {
    /// Nothing: the record waits in the buffer.
    Hold,
    /// Insert this record.
    Insert(TelemetryRecord),
    /// Insert these records as one batch.
    InsertBatch(Vec<TelemetryRecord>),
}

/// Mathematical content of a [`WriteAction`].
pub ghost enum WriteActionData {
    Hold,
    Insert(RecordData),
    InsertBatch(Seq<RecordData>),
}

impl View for WriteAction {
    type V = WriteActionData;

    open spec fn view(&self) -> WriteActionData {
        match self {
            WriteAction::Hold => WriteActionData::Hold,
            WriteAction::Insert(record) => WriteActionData::Insert(record@),
            WriteAction::InsertBatch(records) => WriteActionData::InsertBatch(
                record_views(records@),
            ),
        }
    }
}

/// Mathematical content of an [`Ingestor`].
pub ghost struct IngestorData {
    pub mode: WriteMode,
    pub buffer: Seq<RecordData>,
    pub buffered_since: i64,
    pub window: ThroughputWindow,
}

/// The state of the ingestion loop: its mode, the records that wait for
/// the next batch, when the oldest of them was stamped, and the throughput
/// window.
#[derive(Clone, Debug)]
pub struct Ingestor {
    mode: WriteMode,
    buffer: Vec<TelemetryRecord>,
    buffered_since: i64,
    window: ThroughputWindow,
}

impl View for Ingestor {
    type V = IngestorData;

    closed spec fn view(&self) -> IngestorData {
        IngestorData {
            mode: self.mode,
            buffer: record_views(self.buffer@),
            buffered_since: self.buffered_since,
            window: self.window,
        }
    }
}

/// The record with its timestamp set to `now_millis`.
pub open spec fn stamped(record: RecordData, now_millis: i64) -> RecordData {
    RecordData { last_updated: Some(now_millis), ..record }
}

/// The oldest record of the buffer has waited as long as the mode allows.
pub open spec fn waited_out(max_wait_millis: Option<u64>, since: i64, now_millis: i64) -> bool {
    max_wait_millis matches Some(wait) && now_millis - since >= wait
}

/// The buffer never holds as many records as a batch takes.
pub open spec fn buffer_bounded(data: IngestorData) -> bool {
    match data.mode {
        WriteMode::Single => data.buffer.len() == 0,
        WriteMode::Batched { size, max_wait_millis } => data.buffer.len() == 0 || data.buffer.len()
            < size,
    }
}

/// What offering a record at `now_millis` does: the state after it and the
/// action asked of the loop.
pub open spec fn offered(data: IngestorData, record: RecordData, now_millis: i64) -> (
    IngestorData,
    WriteActionData,
) {
    let record = stamped(record, now_millis);
    match data.mode {
        WriteMode::Single => (data, WriteActionData::Insert(record)),
        WriteMode::Batched { size, max_wait_millis } => {
            let buffer = data.buffer.push(record);
            let since = if data.buffer.len() == 0 {
                now_millis
            } else {
                data.buffered_since
            };
            if buffer.len() >= size || waited_out(max_wait_millis, since, now_millis) {
                (
                    IngestorData { buffer: Seq::empty(), buffered_since: since, ..data },
                    WriteActionData::InsertBatch(buffer),
                )
            } else {
                (IngestorData { buffer, buffered_since: since, ..data }, WriteActionData::Hold)
            }
        },
    }
}

/// What flushing does: the buffer leaves as a batch, if it holds anything.
pub open spec fn flushed(data: IngestorData) -> (IngestorData, WriteActionData) {
    if data.buffer.len() == 0 {
        (data, WriteActionData::Hold)
    } else {
        (IngestorData { buffer: Seq::empty(), ..data }, WriteActionData::InsertBatch(data.buffer))
    }
}

/// What settling a round does: `written` records are counted, and the
/// window is closed with a report if a second has gone by at `now_nanos`.
pub open spec fn settled(data: IngestorData, written: nat, now_nanos: u64) -> (
    IngestorData,
    Option<RateReport>,
) {
    let outcome = observed(counted(data.window, written), now_nanos);
    (IngestorData { window: outcome.0, ..data }, outcome.1)
}

/// What an action does to the in-memory engine: the table after it and the
/// number of records written.
pub open spec fn applied(data: BackendData, action: WriteActionData) -> (BackendData, nat) {
    match action {
        WriteActionData::Hold => (data, 0),
        WriteActionData::Insert(record) => (
            after_insert(data, record),
            if write_refusal(data.kind, record) is None {
                1
            } else {
                0
            },
        ),
        WriteActionData::InsertBatch(records) => {
            let rows = batch_rows(data.kind, data.rows.len(), records);
            (BackendData { rows: data.rows + rows, ..data }, rows.len())
        },
    }
}

/// One round of the loop on the in-memory engine: the record is offered,
/// the action carried out, and the round settled.
pub open spec fn round(
    ingestor: IngestorData,
    backend: BackendData,
    record: RecordData,
    now_millis: i64,
    now_nanos: u64,
) -> (IngestorData, BackendData, Option<RateReport>) {
    let offer = offered(ingestor, record, now_millis);
    let write = applied(backend, offer.1);
    let settle = settled(offer.0, write.1, now_nanos);
    (settle.0, write.0, settle.1)
}

/// `shorter` is the beginning of `longer`.
pub open spec fn is_prefix(shorter: Seq<RecordData>, longer: Seq<RecordData>) -> bool {
    shorter.len() <= longer.len() && longer.take(shorter.len() as int) == shorter
}

/// A span in nanoseconds, or the top of `u64` where it does not fit.
pub open spec fn nanos_of(span: Span) -> u64 {
    if span.secs * 1_000_000_000 + span.nanos <= u64::MAX {
        (span.secs * 1_000_000_000 + span.nanos) as u64
    } else {
        u64::MAX
    }
}

/// A span in nanoseconds, or the top of `u64` where it does not fit.
pub fn span_nanos(span: Span) -> (nanos: u64)
    ensures
        nanos == nanos_of(span),
{
    let total: u128 = (span.secs as u128) * 1_000_000_000 + (span.nanos as u128);
    if total <= u64::MAX as u128 {
        total as u64
    } else {
        u64::MAX
    }
}

/// Carries an action out on the in-memory engine and tells how many
/// records were written. A record that the engine refuses is not written
/// and not counted; the loop goes on.
pub fn apply(backend: &mut Backend, action: WriteAction) -> (written: usize)
    requires
        old(backend).wf(),
    ensures
        final(backend).wf(),
        (final(backend)@, written as nat) == applied(old(backend)@, action@),
{
    match action {
        WriteAction::Hold => 0,
        WriteAction::Insert(record) => match backend.insert(record) {
            Ok(()) => 1,
            Err(_) => 0,
        },
        WriteAction::InsertBatch(records) => {
            proof {
                batch_accounts_for_every_record(
                    backend@.kind,
                    backend@.rows.len(),
                    record_views(records@),
                );
            }
            let report = backend.batch_insert(&records);
            report.written()
        },
    }
}

impl Ingestor {
    /// The buffer is bounded by the batch size.
    pub open spec fn wf(&self) -> bool {
        buffer_bounded(self@)
    }

    /// A loop in the given mode, with an empty buffer and a window that
    /// opens at `now_nanos`.
    pub fn new(mode: WriteMode, now_nanos: u64) -> (ingestor: Ingestor)
        ensures
            ingestor.wf(),
            ingestor@ == (IngestorData {
                mode,
                buffer: Seq::empty(),
                buffered_since: 0,
                window: fresh(now_nanos),
            }),
    {
        let ingestor = Ingestor {
            mode,
            buffer: Vec::new(),
            buffered_since: 0,
            window: ThroughputWindow::new(now_nanos),
        };
        assert(ingestor@.buffer =~= Seq::empty());
        ingestor
    }

    /// Number of records that wait in the buffer.
    pub fn buffered(&self) -> (count: usize)
        ensures
            count == self@.buffer.len(),
    {
        self.buffer.len()
    }

    /// The throughput window as it stands.
    pub fn window(&self) -> (window: ThroughputWindow)
        ensures
            window == self@.window,
    {
        self.window
    }

    /// Takes a record from the generator, stamps it with `now_millis`, and
    /// says what to do with the engine: insert it, insert the batch that it
    /// completes, or nothing while the batch fills.
    pub fn offer(&mut self, record: TelemetryRecord, now_millis: i64) -> (action: WriteAction)
        requires
            old(self).wf(),
        ensures
            final(self).wf(),
            (final(self)@, action@) == offered(old(self)@, record@, now_millis),
    {
        let record = TelemetryRecord { last_updated: Some(now_millis), ..record };
        match self.mode {
            WriteMode::Single => WriteAction::Insert(record),
            WriteMode::Batched { size, max_wait_millis } => {
                let ghost before = self@;
                if self.buffer.len() == 0 {
                    self.buffered_since = now_millis;
                }
                self.buffer.push(record);
                assert(self@.buffer =~= before.buffer.push(record@));
                let waited = match max_wait_millis {
                    Some(wait) => (now_millis as i128) - (self.buffered_since as i128)
                        >= wait as i128,
                    None => false,
                };
                if self.buffer.len() >= size || waited {
                    let mut batch: Vec<TelemetryRecord> = Vec::new();
                    std::mem::swap(&mut batch, &mut self.buffer);
                    assert(self@.buffer =~= Seq::empty());
                    WriteAction::InsertBatch(batch)
                } else {
                    WriteAction::Hold
                }
            },
        }
    }

    /// Hands out what waits in the buffer, as a batch.
    pub fn flush(&mut self) -> (action: WriteAction)
        requires
            old(self).wf(),
        ensures
            final(self).wf(),
            (final(self)@, action@) == flushed(old(self)@),
    {
        if self.buffer.len() == 0 {
            WriteAction::Hold
        } else {
            let mut batch: Vec<TelemetryRecord> = Vec::new();
            std::mem::swap(&mut batch, &mut self.buffer);
            assert(self@.buffer =~= Seq::empty());
            WriteAction::InsertBatch(batch)
        }
    }

    /// Closes a round: counts the records that were written and looks at
    /// the clock. A failed write counts nothing and stops nothing.
    pub fn settle(&mut self, written: usize, now_nanos: u64) -> (report: Option<RateReport>)
        requires
            old(self).wf(),
        ensures
            final(self).wf(),
            (final(self)@, report) == settled(old(self)@, written as nat, now_nanos),
    {
        self.window.record_successes(written as u64);
        self.window.observe(now_nanos)
    }
}

/// One round of the loop on the in-memory engine.
pub fn write_round(
    ingestor: &mut Ingestor,
    backend: &mut Backend,
    record: TelemetryRecord,
    now_millis: i64,
    now_nanos: u64,
) -> (report: Option<RateReport>)
    requires
        old(ingestor).wf(),
        old(backend).wf(),
    ensures
        final(ingestor).wf(),
        final(backend).wf(),
        (final(ingestor)@, final(backend)@, report) == round(
            old(ingestor)@,
            old(backend)@,
            record@,
            now_millis,
            now_nanos,
        ),
{
    let action = ingestor.offer(record, now_millis);
    let written = apply(backend, action);
    ingestor.settle(written, now_nanos)
}

/// A round only ever appends: the rows that the table held stay where they
/// were, the engine stays the engine it was, and buffer and table together
/// grow by at most the one record of the round.
pub proof fn round_only_appends(
    ingestor: IngestorData,
    backend: BackendData,
    record: RecordData,
    now_millis: i64,
    now_nanos: u64,
)
    ensures
        is_prefix(backend.rows, round(ingestor, backend, record, now_millis, now_nanos).1.rows),
        round(ingestor, backend, record, now_millis, now_nanos).1.kind == backend.kind,
        round(ingestor, backend, record, now_millis, now_nanos).1.allow_full_scan
            == backend.allow_full_scan,
        round(ingestor, backend, record, now_millis, now_nanos).0.mode == ingestor.mode,
        round(ingestor, backend, record, now_millis, now_nanos).1.rows.len() + round(
            ingestor,
            backend,
            record,
            now_millis,
            now_nanos,
        ).0.buffer.len() <= backend.rows.len() + ingestor.buffer.len() + 1,
{
    let offer = offered(ingestor, record, now_millis);
    let after = applied(backend, offer.1).0;
    match offer.1 {
        WriteActionData::Hold => {
            assert(after.rows.take(backend.rows.len() as int) =~= backend.rows);
        },
        WriteActionData::Insert(row) => {
            assert(after.rows.take(backend.rows.len() as int) =~= backend.rows);
        },
        WriteActionData::InsertBatch(records) => {
            lemma_rows_written_len(
                backend.kind,
                backend.rows.len(),
                records,
                batch_failed(backend.kind, records).to_set(),
            );
            assert(after.rows.take(backend.rows.len() as int) =~= backend.rows);
        },
    }
}

/// The engine of this kind will take the record once it is stamped: its
/// metrics are in range, and it brings an identifier where the engine asks
/// for one.
pub open spec fn fits(kind: BackendKind, record: RecordData) -> bool {
    record.in_range() && (kind == BackendKind::WideColumn ==> record.id is Some)
}

/// The engine of this kind will take every one of the records.
pub open spec fn all_writable(kind: BackendKind, records: Seq<RecordData>) -> bool {
    forall|i: int| 0 <= i < records.len() ==> write_refusal(kind, #[trigger] records[i]) is None
}

/// A batch of records that the engine will take is written whole.
pub proof fn lemma_writable_batch_is_written(
    kind: BackendKind,
    base: nat,
    records: Seq<RecordData>,
)
    requires
        all_writable(kind, records),
    ensures
        batch_failed(kind, records).len() == 0,
        batch_rows(kind, base, records).len() == records.len(),
{
    lemma_refused_indices(kind, records);
    let refused = refused_indices(kind, records);
    if refused.len() > 0 {
        assert(refused.contains(refused[0]));
    }
    batch_accounts_for_every_record(kind, base, records);
}

/// No record that the engine will take is lost: where the buffer holds
/// only such records and one more is offered, the round leaves all of them
/// in the buffer or in the table.
pub proof fn round_keeps_every_writable_record(
    ingestor: IngestorData,
    backend: BackendData,
    record: RecordData,
    now_millis: i64,
    now_nanos: u64,
)
    requires
        all_writable(backend.kind, ingestor.buffer),
        fits(backend.kind, record),
    ensures
        round(ingestor, backend, record, now_millis, now_nanos).1.rows.len() + round(
            ingestor,
            backend,
            record,
            now_millis,
            now_nanos,
        ).0.buffer.len() == backend.rows.len() + ingestor.buffer.len() + 1,
        all_writable(
            backend.kind,
            round(ingestor, backend, record, now_millis, now_nanos).0.buffer,
        ),
{
    let offer = offered(ingestor, record, now_millis);
    assert(write_refusal(backend.kind, stamped(record, now_millis)) is None);
    match offer.1 {
        WriteActionData::Hold => {},
        WriteActionData::Insert(row) => {},
        WriteActionData::InsertBatch(records) => {
            assert(records == ingestor.buffer.push(stamped(record, now_millis)));
            lemma_writable_batch_is_written(backend.kind, backend.rows.len(), records);
        },
    }
}

/// The count that a report carries; nothing where there is no report.
pub open spec fn reported(report: Option<RateReport>) -> int {
    match report {
        Some(report) => report.count as int,
        None => 0,
    }
}

/// The counts of a sequence of reports, added up.
pub open spec fn total_reported(reports: Seq<RateReport>) -> int
    decreases reports.len(),
{
    if reports.len() == 0 {
        0
    } else {
        total_reported(reports.drop_last()) + reports.last().count
    }
}

/// A round counts exactly what it writes: the rows that the table gained
/// are added to the window, and they leave it only in a report. The count
/// stops at the top of `u64`.
pub proof fn round_counts_what_it_writes(
    ingestor: IngestorData,
    backend: BackendData,
    record: RecordData,
    now_millis: i64,
    now_nanos: u64,
)
    ensures
        ({
            let after = round(ingestor, backend, record, now_millis, now_nanos);
            let gained = after.1.rows.len() - backend.rows.len();
            &&& gained >= 0
            &&& reported(after.2) + after.0.window.count == if ingestor.window.count + gained
                <= u64::MAX {
                ingestor.window.count + gained
            } else {
                u64::MAX as int
            }
            &&& after.2 matches Some(report) ==> report.elapsed_nanos >= WINDOW_NANOS
        }),
{
}

/// Runs the loop for `rounds` rounds on the in-memory engine: each round
/// generates a record, stamps it with the wall clock, writes as the mode
/// says, and counts on the monotonic clock that started at `origin`. It
/// hands back the rate reports of the windows that closed. Whatever the
/// generator and the clocks give, the table is only appended to, and every
/// generated record ends up in the table or in the buffer, unless the
/// buffer came with a record that the engine will not take. Every row that
/// the table gains is counted once, in the window or in a report.
pub fn writer(
    ingestor: &mut Ingestor,
    backend: &mut Backend,
    origin: &std::time::Instant,
    rounds: usize,
) -> (reports: Vec<RateReport>)
    requires
        old(ingestor).wf(),
        old(backend).wf(),
    ensures
        final(ingestor).wf(),
        final(backend).wf(),
        final(ingestor)@.mode == old(ingestor)@.mode,
        final(backend)@.kind == old(backend)@.kind,
        final(backend)@.allow_full_scan == old(backend)@.allow_full_scan,
        is_prefix(old(backend)@.rows, final(backend)@.rows),
        final(backend)@.rows.len() + final(ingestor)@.buffer.len() <= old(backend)@.rows.len()
            + old(ingestor)@.buffer.len() + rounds,
        all_writable(old(backend)@.kind, old(ingestor)@.buffer) ==> all_writable(
            final(backend)@.kind,
            final(ingestor)@.buffer,
        ) && final(backend)@.rows.len() + final(ingestor)@.buffer.len() == old(
            backend,
        )@.rows.len() + old(ingestor)@.buffer.len() + rounds,
        old(ingestor)@.window.count + final(backend)@.rows.len() - old(backend)@.rows.len()
            <= u64::MAX ==> total_reported(reports@) + final(ingestor)@.window.count == old(
            ingestor,
        )@.window.count + final(backend)@.rows.len() - old(backend)@.rows.len(),
        reports@.len() <= rounds,
        forall|i: int|
            0 <= i < reports@.len() ==> (#[trigger] reports@[i]).elapsed_nanos >= WINDOW_NANOS,
{
    let mut reports: Vec<RateReport> = Vec::new();
    let mut done: usize = 0;
    assert(backend@.rows.take(backend@.rows.len() as int) =~= backend@.rows);
    while done < rounds
        invariant
            done <= rounds,
            ingestor.wf(),
            backend.wf(),
            ingestor@.mode == old(ingestor)@.mode,
            backend@.kind == old(backend)@.kind,
            backend@.allow_full_scan == old(backend)@.allow_full_scan,
            is_prefix(old(backend)@.rows, backend@.rows),
            backend@.rows.len() + ingestor@.buffer.len() <= old(backend)@.rows.len() + old(
                ingestor,
            )@.buffer.len() + done,
            all_writable(old(backend)@.kind, old(ingestor)@.buffer) ==> all_writable(
                backend@.kind,
                ingestor@.buffer,
            ) && backend@.rows.len() + ingestor@.buffer.len() == old(backend)@.rows.len() + old(
                ingestor,
            )@.buffer.len() + done,
            old(ingestor)@.window.count + backend@.rows.len() - old(backend)@.rows.len()
                <= u64::MAX ==> total_reported(reports@) + ingestor@.window.count == old(
                ingestor,
            )@.window.count + backend@.rows.len() - old(backend)@.rows.len(),
            total_reported(reports@) >= 0,
            reports@.len() <= done,
            forall|i: int|
                0 <= i < reports@.len() ==> (#[trigger] reports@[i]).elapsed_nanos >= WINDOW_NANOS,
        decreases rounds - done,
    {
        let record = generate();
        let now_millis = wall_clock_millis();
        let now_nanos = span_nanos(stopwatch_elapsed(origin));
        let ghost before = backend@;
        proof {
            round_only_appends(ingestor@, backend@, record@, now_millis, now_nanos);
            round_counts_what_it_writes(ingestor@, backend@, record@, now_millis, now_nanos);
            if all_writable(backend@.kind, ingestor@.buffer) {
                round_keeps_every_writable_record(
                    ingestor@,
                    backend@,
                    record@,
                    now_millis,
                    now_nanos,
                );
            }
        }
        let report = write_round(ingestor, backend, record, now_millis, now_nanos);
        proof {
            assert(backend@.rows.take(old(backend)@.rows.len() as int) =~= before.rows.take(
                old(backend)@.rows.len() as int,
            ));
        }
        match report {
            Some(report) => {
                let ghost earlier = reports@;
                reports.push(report);
                assert(reports@.drop_last() =~= earlier);
            },
            None => {},
        }
        done = done + 1;
    }
    reports
}

} // verus!
