//! The table of telemetry records as a mathematical value: what a write
//! does to it in each kind of engine, and what a batch reports.

use vstd::prelude::*;
use crate::record::RecordData;

verus! {

/// Which engine a backend stands for.
#[derive(Clone, Copy, Debug, PartialEq, Eq, Structural)]
pub enum BackendKind {
    /// One flat table; every row gets its identity from the table.
    Relational,
    /// A partitioned table; every row brings its identifier, and reads that
    /// filter or order by other columns need leave to scan.
    WideColumn,
}

/// Mathematical content of a [`crate::backend::Backend`].
pub ghost struct BackendData {
    pub kind: BackendKind,
    pub allow_full_scan: bool,
    pub rows: Seq<RecordData>,
}

/// A record as a table holds it: stamped, identified, metrics in range.
pub open spec fn is_persisted(row: RecordData) -> bool {
    &&& row.in_range()
    &&& row.last_updated is Some
    &&& row.id is Some
}

/// Every row of the table is as a table holds it.
pub open spec fn all_persisted(rows: Seq<RecordData>) -> bool {
    forall|i: int| 0 <= i < rows.len() ==> is_persisted(#[trigger] rows[i])
}

/// Why `record` cannot be written to an engine of this kind, if it cannot:
/// a metric out of range, no timestamp, or no identifier where the engine
/// asks for one.
pub open spec fn write_refusal(kind: BackendKind, record: RecordData) -> Option<Seq<char>> {
    if !record.in_range() {
        Some("metric out of range"@)
    } else if record.last_updated is None {
        Some("last_updated is not set"@)
    } else if kind == BackendKind::WideColumn && record.id is None {
        Some("id is required"@)
    } else {
        None
    }
}

/// The row that an accepted record becomes when it is written at position
/// `position`: the relational engine gives it the position as identity, the
/// wide-column engine keeps the identifier it came with.
pub open spec fn stored_form(kind: BackendKind, position: nat, record: RecordData) -> RecordData {
    match kind {
        BackendKind::Relational => RecordData { id: Some(position as u128), ..record },
        BackendKind::WideColumn => record,
    }
}

/// A row says of its driver, its metrics and its timestamp what the record
/// said that it was written from; only the identity may be the table's.
pub proof fn stored_row_keeps_the_record(kind: BackendKind, position: nat, record: RecordData)
    ensures
        stored_form(kind, position, record).driver_name == record.driver_name,
        stored_form(kind, position, record).top_speed == record.top_speed,
        stored_form(kind, position, record).acceleration == record.acceleration,
        stored_form(kind, position, record).handling == record.handling,
        stored_form(kind, position, record).last_updated == record.last_updated,
        kind == BackendKind::WideColumn ==> stored_form(kind, position, record) == record,
        write_refusal(kind, record) is None ==> is_persisted(stored_form(kind, position, record)),
{
}

/// The table after `record` was offered to it: one row longer where the
/// record can be written, unchanged where it cannot.
pub open spec fn after_insert(data: BackendData, record: RecordData) -> BackendData {
    if write_refusal(data.kind, record) is None {
        BackendData { rows: data.rows.push(stored_form(data.kind, data.rows.len(), record)), ..data }
    } else {
        data
    }
}

/// The positions in `records` of those that cannot be written, ascending.
pub open spec fn refused_indices(kind: BackendKind, records: Seq<RecordData>) -> Seq<int>
    decreases records.len(),
{
    if records.len() == 0 {
        Seq::empty()
    } else {
        let earlier = refused_indices(kind, records.drop_last());
        if write_refusal(kind, records.last()) is Some {
            earlier.push(records.len() - 1)
        } else {
            earlier
        }
    }
}

/// The rows that the records outside `dropped` become when they are written
/// in order to a table that holds `base` rows.
pub open spec fn rows_written(
    kind: BackendKind,
    base: nat,
    records: Seq<RecordData>,
    dropped: Set<int>,
) -> Seq<RecordData>
    decreases records.len(),
{
    if records.len() == 0 {
        Seq::empty()
    } else {
        let earlier = rows_written(kind, base, records.drop_last(), dropped);
        if dropped.contains(records.len() - 1) {
            earlier
        } else {
            earlier.push(stored_form(kind, base + earlier.len(), records.last()))
        }
    }
}

/// The positions that a batch reports as failed. The relational engine
/// writes a batch whole or not at all, so one refusal fails every record;
/// the wide-column engine fails the refused records only.
pub open spec fn batch_failed(kind: BackendKind, records: Seq<RecordData>) -> Seq<int> {
    match kind {
        BackendKind::Relational => if refused_indices(kind, records).len() == 0 {
            Seq::empty()
        } else {
            Seq::new(records.len(), |i: int| i)
        },
        BackendKind::WideColumn => refused_indices(kind, records),
    }
}

/// The rows that a batch adds to a table of `base` rows: those of the
/// records that it does not report as failed.
pub open spec fn batch_rows(kind: BackendKind, base: nat, records: Seq<RecordData>) -> Seq<
    RecordData,
> {
    rows_written(kind, base, records, batch_failed(kind, records).to_set())
}

/// The refused positions are exactly the positions of the records that
/// cannot be written, and they ascend.
pub proof fn lemma_refused_indices(kind: BackendKind, records: Seq<RecordData>)
    ensures
        forall|j: int|
            refused_indices(kind, records).contains(j) <==> (0 <= j < records.len()
                && write_refusal(kind, records[j]) is Some),
        forall|a: int, b: int|
            0 <= a < b < refused_indices(kind, records).len() ==> refused_indices(kind, records)[a]
                < refused_indices(kind, records)[b],
        refused_indices(kind, records).len() <= records.len(),
    decreases records.len(),
{
    let refused = refused_indices(kind, records);
    if records.len() > 0 {
        let front = records.drop_last();
        let earlier = refused_indices(kind, front);
        let last = records.len() - 1;
        lemma_refused_indices(kind, front);
        assert forall|j: int|
            refused.contains(j) <==> (0 <= j < records.len() && write_refusal(kind, records[j])
                is Some) by {
            if write_refusal(kind, records.last()) is Some {
                assert(refused == earlier.push(last));
                if refused.contains(j) {
                    let k = choose|k: int| 0 <= k < refused.len() && refused[k] == j;
                    if k < earlier.len() {
                        assert(earlier[k] == j);
                        assert(earlier.contains(j));
                        assert(front[j] == records[j]);
                    }
                }
                if 0 <= j < records.len() && write_refusal(kind, records[j]) is Some {
                    if j < last {
                        assert(front[j] == records[j]);
                        assert(earlier.contains(j));
                        let k = choose|k: int| 0 <= k < earlier.len() && earlier[k] == j;
                        assert(refused[k] == j);
                    } else {
                        assert(refused[earlier.len() as int] == j);
                    }
                }
            } else {
                if refused.contains(j) {
                    assert(front[j] == records[j]);
                }
                if 0 <= j < records.len() && write_refusal(kind, records[j]) is Some {
                    assert(front[j] == records[j]);
                }
            }
        }
        assert forall|a: int, b: int| 0 <= a < b < refused.len() implies refused[a] < refused[b] by {
            if b == earlier.len() {
                assert(earlier.contains(earlier[a]));
            }
        }
    }
}

/// What is written depends on `dropped` only through the positions of the
/// batch.
pub proof fn lemma_rows_written_agree(
    kind: BackendKind,
    base: nat,
    records: Seq<RecordData>,
    dropped: Set<int>,
    other: Set<int>,
)
    requires
        forall|j: int| 0 <= j < records.len() ==> (dropped.contains(j) <==> other.contains(j)),
    ensures
        rows_written(kind, base, records, dropped) == rows_written(kind, base, records, other),
    decreases records.len(),
{
    if records.len() > 0 {
        lemma_rows_written_agree(kind, base, records.drop_last(), dropped, other);
    }
}

/// Nothing is written where every position is dropped, and never more rows
/// than records.
pub proof fn lemma_rows_written_len(
    kind: BackendKind,
    base: nat,
    records: Seq<RecordData>,
    dropped: Set<int>,
)
    ensures
        rows_written(kind, base, records, dropped).len() <= records.len(),
        (forall|j: int| 0 <= j < records.len() ==> dropped.contains(j)) ==> rows_written(
            kind,
            base,
            records,
            dropped,
        ).len() == 0,
    decreases records.len(),
{
    if records.len() > 0 {
        lemma_rows_written_len(kind, base, records.drop_last(), dropped);
    }
}

/// Where `failed` ascends through positions of the batch, every record is
/// either written or named in it: the two counts add up to the batch.
pub proof fn lemma_written_and_failed_add_up(
    kind: BackendKind,
    base: nat,
    records: Seq<RecordData>,
    failed: Seq<int>,
)
    requires
        forall|a: int| 0 <= a < failed.len() ==> 0 <= #[trigger] failed[a] < records.len(),
        forall|a: int, b: int| 0 <= a < b < failed.len() ==> failed[a] < failed[b],
    ensures
        rows_written(kind, base, records, failed.to_set()).len() + failed.len() == records.len(),
    decreases records.len(),
{
    if records.len() == 0 {
        assert(failed.len() == 0) by {
            if failed.len() > 0 {
                assert(0 <= failed[0] < records.len());
            }
        }
    } else {
        let front = records.drop_last();
        let last = records.len() - 1;
        if failed.to_set().contains(last) {
            let k = choose|k: int| 0 <= k < failed.len() && failed[k] == last;
            assert(k == failed.len() - 1) by {
                if k < failed.len() - 1 {
                    assert(failed[k] < failed[failed.len() - 1]);
                }
            }
            let fewer = failed.drop_last();
            assert forall|a: int| 0 <= a < fewer.len() implies 0 <= #[trigger] fewer[a]
                < front.len() by {
                assert(failed[a] < failed[failed.len() - 1]);
            }
            lemma_written_and_failed_add_up(kind, base, front, fewer);
            assert forall|j: int| 0 <= j < front.len() implies (failed.to_set().contains(j)
                <==> fewer.to_set().contains(j)) by {
                if failed.to_set().contains(j) {
                    let m = choose|m: int| 0 <= m < failed.len() && failed[m] == j;
                    assert(fewer[m] == j);
                }
                if fewer.to_set().contains(j) {
                    let m = choose|m: int| 0 <= m < fewer.len() && fewer[m] == j;
                    assert(failed[m] == j);
                }
            }
            lemma_rows_written_agree(kind, base, front, failed.to_set(), fewer.to_set());
        } else {
            assert forall|a: int| 0 <= a < failed.len() implies 0 <= #[trigger] failed[a]
                < front.len() by {
                assert(failed.to_set().contains(failed[a]));
            }
            lemma_written_and_failed_add_up(kind, base, front, failed);
        }
    }
}

/// No record of a batch is lost in silence. The positions reported as
/// failed ascend through the batch; the records written and the records
/// reported add up to the batch; and the batch was written whole exactly if
/// nothing is reported.
pub proof fn batch_accounts_for_every_record(
    kind: BackendKind,
    base: nat,
    records: Seq<RecordData>,
)
    ensures
        forall|a: int|
            0 <= a < batch_failed(kind, records).len() ==> 0 <= #[trigger] batch_failed(
                kind,
                records,
            )[a] < records.len(),
        forall|a: int, b: int|
            0 <= a < b < batch_failed(kind, records).len() ==> batch_failed(kind, records)[a]
                < batch_failed(kind, records)[b],
        batch_rows(kind, base, records).len() + batch_failed(kind, records).len()
            == records.len(),
        batch_failed(kind, records).len() == 0 <==> batch_rows(kind, base, records).len()
            == records.len(),
        batch_rows(kind, base, records) == rows_written(
            kind,
            base,
            records,
            batch_failed(kind, records).to_set(),
        ),
{
    lemma_refused_indices(kind, records);
    let failed = batch_failed(kind, records);
    assert forall|a: int| 0 <= a < failed.len() implies 0 <= #[trigger] failed[a]
        < records.len() by {
        if failed == refused_indices(kind, records) {
            assert(refused_indices(kind, records).contains(failed[a]));
        }
    }
    lemma_written_and_failed_add_up(kind, base, records, failed);
}

/// The engine can answer reads that filter or order by columns outside its
/// key.
pub open spec fn can_scan(data: BackendData) -> bool {
    data.kind == BackendKind::Relational || data.allow_full_scan
}

} // verus!
