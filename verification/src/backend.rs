//! A model of the storage engine behind the five capabilities, held in
//! memory, in a relational and a wide-column variant.

use vstd::prelude::*;
use vstd::string::StringExecFns;
use crate::error::{backend_error, invalid_argument, BackendFailure, Operation, QueryError};
use crate::query::{
    lemma_recent_picks, listing_of, max_speed_of, newer, newest_below, recent_listing,
    recent_picks, stamp_of, DriverSpeedData, RECENT_LIMIT,
};
use crate::record::{RecordData, TelemetryRecord};
use crate::table::{
    after_insert, all_persisted, batch_failed, batch_rows, can_scan, lemma_refused_indices,
    lemma_rows_written_len, refused_indices, rows_written, stored_form, write_refusal,
    BackendData, BackendKind,
};

verus! {

/// The views of a sequence of records.
pub open spec fn record_views(records: Seq<TelemetryRecord>) -> Seq<RecordData> {
    records.map_values(|record: TelemetryRecord| record@)
}

/// A position held in a machine word, as an integer.
pub open spec fn position_of(index: Option<usize>) -> Option<int> {
    match index {
        Some(i) => Some(i as int),
        None => None,
    }
}

/// Positions held in a vector, as integers.
pub open spec fn positions(indices: Seq<usize>) -> Seq<int> {
    indices.map_values(|i: usize| i as int)
}

/// Positions that ascend below a bound are no more than the bound.
pub proof fn lemma_ascending_positions_fit(failed: Seq<usize>, bound: usize)
    requires
        forall|a: int| 0 <= a < failed.len() ==> #[trigger] failed[a] < bound,
        forall|a: int, b: int| 0 <= a < b < failed.len() ==> failed[a] < failed[b],
    ensures
        failed.len() <= bound,
        forall|a: int| 0 <= a < failed.len() ==> a <= #[trigger] failed[a],
    decreases failed.len(),
{
    if failed.len() > 0 {
        let front = failed.drop_last();
        assert forall|a: int| 0 <= a < front.len() implies #[trigger] front[a] < bound by {
            assert(front[a] == failed[a]);
        }
        lemma_ascending_positions_fit(front, bound);
        let last = failed.len() - 1;
        assert forall|a: int| 0 <= a < failed.len() implies a <= #[trigger] failed[a] by {
            if a < last {
                assert(front[a] == failed[a]);
            } else if last > 0 {
                assert(front[last - 1] == failed[last - 1]);
                assert(failed[last - 1] < failed[last]);
            }
        }
        assert(failed[last] < bound);
    }
}

/// What became of a batch: how many records were submitted and the
/// positions of those that were not written, ascending.
#[derive(Clone, Debug, PartialEq, Eq)]
pub struct BatchReport {
    pub submitted: usize,
    pub failed: Vec<usize>,
}

impl BatchReport {
    /// Number of records that were written.
    pub open spec fn spec_written(&self) -> int {
        self.submitted - self.failed@.len()
    }

    /// The failed positions ascend and lie inside the batch.
    pub open spec fn wf(&self) -> bool {
        &&& forall|a: int| 0 <= a < self.failed@.len() ==> #[trigger] self.failed@[a] < self.submitted
        &&& forall|a: int, b: int|
            0 <= a < b < self.failed@.len() ==> self.failed@[a] < self.failed@[b]
    }

    /// The report of a batch of `submitted` records that was written whole.
    pub fn whole(submitted: usize) -> (report: BatchReport)
        ensures
            report.wf(),
            report.submitted == submitted,
            report.failed@.len() == 0,
    {
        BatchReport { submitted, failed: Vec::new() }
    }

    /// Notes that the record at `position` was not written. Positions are
    /// noted in ascending order; one that lies outside the batch, or not
    /// after the last one noted, is left out and `false` comes back.
    pub fn fail(&mut self, position: usize) -> (noted: bool)
        requires
            old(self).wf(),
        ensures
            final(self).wf(),
            final(self).submitted == old(self).submitted,
            final(self).failed@.len() <= final(self).submitted,
            noted == (position < old(self).submitted && (old(self).failed@.len() == 0 || old(
                self,
            ).failed@.last() < position)),
            noted ==> final(self).failed@ == old(self).failed@.push(position),
            !noted ==> final(self).failed@ == old(self).failed@,
    {
        proof {
            lemma_ascending_positions_fit(self.failed@, self.submitted);
        }
        let count = self.failed.len();
        if position < self.submitted && (count == 0 || self.failed[count - 1] < position) {
            self.failed.push(position);
            proof {
                lemma_ascending_positions_fit(self.failed@, self.submitted);
            }
            true
        } else {
            false
        }
    }

    /// The report of a batch of `submitted` records of which none was
    /// written: every position is named as failed.
    pub fn none(submitted: usize) -> (report: BatchReport)
        ensures
            report.wf(),
            report.submitted == submitted,
            positions(report.failed@) == Seq::new(submitted as nat, |i: int| i),
    {
        let mut failed: Vec<usize> = Vec::new();
        let mut j: usize = 0;
        while j < submitted
            invariant
                j <= submitted,
                positions(failed@) == Seq::new(j as nat, |i: int| i),
            decreases submitted - j,
        {
            let ghost earlier = failed@;
            failed.push(j);
            assert(positions(failed@) =~= positions(earlier).push(j as int));
            assert(positions(failed@) =~= Seq::new((j + 1) as nat, |i: int| i));
            j = j + 1;
        }
        let report = BatchReport { submitted, failed };
        assert forall|a: int| 0 <= a < report.failed@.len() implies #[trigger] report.failed@[a]
            == a by {
            assert(positions(report.failed@)[a] == a);
        }
        report
    }

    /// Tells whether every record was written.
    pub fn all_succeeded(&self) -> (ok: bool)
        ensures
            ok == (self.failed@.len() == 0),
    {
        self.failed.len() == 0
    }

    /// Number of records that were written.
    pub fn written(&self) -> (count: usize)
        requires
            self.failed@.len() <= self.submitted,
        ensures
            count == self.spec_written(),
    {
        self.submitted - self.failed.len()
    }
}

/// One line of the listing of recent rows.
#[derive(Clone, Debug, PartialEq, Eq)]
pub struct DriverSpeed {
    pub driver_name: String,
    pub top_speed: i32,
}

impl View for DriverSpeed {
    type V = DriverSpeedData;

    open spec fn view(&self) -> DriverSpeedData {
        DriverSpeedData { driver_name: self.driver_name@, top_speed: self.top_speed as int }
    }
}

/// The views of a listing.
pub open spec fn listing_views(listing: Seq<DriverSpeed>) -> Seq<DriverSpeedData> {
    listing.map_values(|line: DriverSpeed| line@)
}

/// Why `record` cannot be written to an engine of this kind, if it cannot.
pub fn refusal_of(kind: BackendKind, record: &TelemetryRecord) -> (reason: Option<&'static str>)
    ensures
        match write_refusal(kind, record@) {
            Some(text) => reason matches Some(given) && given@ == text,
            None => reason is None,
        },
{
    if !record.is_in_range() {
        Some("metric out of range")
    } else if record.last_updated.is_none() {
        Some("last_updated is not set")
    } else if record.id.is_none() && matches!(kind, BackendKind::WideColumn) {
        Some("id is required")
    } else {
        None
    }
}

/// The positions in `records` of those that cannot be written to an engine
/// of this kind, ascending.
pub fn refused_positions(kind: BackendKind, records: &Vec<TelemetryRecord>) -> (refused: Vec<
    usize,
>)
    ensures
        positions(refused@) == refused_indices(kind, record_views(records@)),
        refused@.len() <= records@.len(),
{
    let ghost views = record_views(records@);
    let mut refused: Vec<usize> = Vec::new();
    let mut i: usize = 0;
    while i < records.len()
        invariant
            i <= records.len(),
            views == record_views(records@),
            positions(refused@) == refused_indices(kind, views.take(i as int)),
        decreases records.len() - i,
    {
        proof {
            assert(views.take(i + 1).drop_last() =~= views.take(i as int));
            assert(views.take(i + 1).last() == records[i as int]@);
        }
        if refusal_of(kind, &records[i]).is_some() {
            let ghost earlier = refused@;
            refused.push(i);
            assert(positions(refused@) =~= positions(earlier).push(i as int));
        }
        i = i + 1;
    }
    proof {
        assert(views.take(records.len() as int) =~= views);
        lemma_refused_indices(kind, views);
    }
    refused
}

/// A speed that was found, as an integer.
pub open spec fn found_view(found: Option<i32>) -> Option<int> {
    match found {
        Some(speed) => Some(speed as int),
        None => None,
    }
}

/// A model of the storage engine, held in memory: the table and the five
/// capabilities as this system understands them, in both kinds. It talks to
/// no engine; it says what the answers are taken to mean.
#[derive(Clone, Debug)]
pub struct Backend {
    kind: BackendKind,
    allow_full_scan: bool,
    rows: Vec<TelemetryRecord>,
}

impl View for Backend {
    type V = BackendData;

    closed spec fn view(&self) -> BackendData {
        BackendData {
            kind: self.kind,
            allow_full_scan: self.allow_full_scan,
            rows: record_views(self.rows@),
        }
    }
}

impl Backend {
    /// Every row is stamped, identified and in range.
    pub open spec fn wf(&self) -> bool {
        all_persisted(self@.rows)
    }

    /// An empty engine of the given kind. `allow_full_scan` matters to the
    /// wide-column kind only.
    pub fn new(kind: BackendKind, allow_full_scan: bool) -> (backend: Backend)
        ensures
            backend.wf(),
            backend@ == (BackendData { kind, allow_full_scan, rows: Seq::empty() }),
    {
        let backend = Backend { kind, allow_full_scan, rows: Vec::new() };
        assert(backend@.rows =~= Seq::empty());
        backend
    }

    /// Number of rows held.
    pub fn len(&self) -> (count: usize)
        ensures
            count == self@.rows.len(),
    {
        self.rows.len()
    }

    /// Tells whether the engine answers reads outside its key.
    pub fn scans(&self) -> (ok: bool)
        ensures
            ok == can_scan(self@),
    {
        match self.kind {
            BackendKind::Relational => true,
            BackendKind::WideColumn => self.allow_full_scan,
        }
    }

    /// Writes one record. It is refused, and the table left as it was, if a
    /// metric is out of range, if it carries no timestamp, or if the
    /// wide-column engine gets it without an identifier.
    pub fn insert(&mut self, record: TelemetryRecord) -> (result: Result<(), QueryError>)
        requires
            old(self).wf(),
        ensures
            final(self).wf(),
            final(self)@ == after_insert(old(self)@, record@),
            match write_refusal(old(self)@.kind, record@) {
                None => result is Ok,
                Some(reason) => result matches Err(error) && error@ == invalid_argument(reason),
            },
    {
        match refusal_of(self.kind, &record) {
            Some(reason) => Err(QueryError::invalid(reason)),
            None => {
                let ghost before = self@;
                let row = match self.kind {
                    BackendKind::Relational => TelemetryRecord {
                        id: Some(self.rows.len() as u128),
                        ..record
                    },
                    BackendKind::WideColumn => record,
                };
                assert(row@ == stored_form(before.kind, before.rows.len(), record@));
                self.rows.push(row);
                assert(self@.rows =~= before.rows.push(row@));
                Ok(())
            },
        }
    }

    /// Writes a batch as one unit and reports the positions of the records
    /// that were not written. The relational engine writes the batch whole
    /// or not at all: one record that cannot be written fails all of them.
    /// The wide-column engine writes what it can and fails the rest. Either
    /// way every record is written or reported.
    pub fn batch_insert(&mut self, records: &Vec<TelemetryRecord>) -> (report: BatchReport)
        requires
            old(self).wf(),
        ensures
            final(self).wf(),
            final(self)@.kind == old(self)@.kind,
            final(self)@.allow_full_scan == old(self)@.allow_full_scan,
            final(self)@.rows == old(self)@.rows + batch_rows(
                old(self)@.kind,
                old(self)@.rows.len(),
                record_views(records@),
            ),
            report.wf(),
            report.submitted == records.len(),
            report.failed@.len() <= records.len(),
            positions(report.failed@) == batch_failed(old(self)@.kind, record_views(records@)),
    {
        let ghost before = self@;
        let ghost views = record_views(records@);
        let n = records.len();
        let refused = refused_positions(self.kind, records);
        proof {
            lemma_refused_indices(before.kind, views);
        }
        let ghost dropped = batch_failed(before.kind, views).to_set();
        if matches!(self.kind, BackendKind::Relational) && refused.len() > 0 {
            let report = BatchReport::none(n);
            proof {
                assert forall|j: int| 0 <= j < views.len() implies dropped.contains(j) by {
                    assert(batch_failed(before.kind, views)[j] == j);
                }
                lemma_rows_written_len(before.kind, before.rows.len(), views, dropped);
                assert(before.rows + batch_rows(before.kind, before.rows.len(), views)
                    =~= before.rows);
            }
            return report;
        }
        proof {
            assert forall|j: int| 0 <= j < views.len() implies (dropped.contains(j)
                <==> write_refusal(before.kind, views[j]) is Some) by {
                if before.kind == BackendKind::Relational {
                    assert(refused_indices(before.kind, views).len() == 0);
                    assert(!refused_indices(before.kind, views).contains(j));
                    assert(batch_failed(before.kind, views) =~= Seq::<int>::empty());
                }
            }
            assert(before.rows + rows_written(
                before.kind,
                before.rows.len(),
                views.take(0),
                dropped,
            ) =~= before.rows);
        }
        let mut k: usize = 0;
        while k < n
            invariant
                k <= n,
                n == records.len(),
                views == record_views(records@),
                self.wf(),
                self@.kind == before.kind,
                self@.allow_full_scan == before.allow_full_scan,
                forall|j: int|
                    0 <= j < views.len() ==> (dropped.contains(j) <==> write_refusal(
                        before.kind,
                        views[j],
                    ) is Some),
                self@.rows == before.rows + rows_written(
                    before.kind,
                    before.rows.len(),
                    views.take(k as int),
                    dropped,
                ),
            decreases n - k,
        {
            let ghost held = self@.rows;
            let ghost earlier = rows_written(
                before.kind,
                before.rows.len(),
                views.take(k as int),
                dropped,
            );
            proof {
                assert(views.take(k + 1).drop_last() =~= views.take(k as int));
                assert(views.take(k + 1).last() == views[k as int]);
                assert(views[k as int] == records[k as int]@);
                lemma_rows_written_len(before.kind, before.rows.len(), views.take(k as int), dropped);
            }
            if refusal_of(self.kind, &records[k]).is_none() {
                let copy = records[k].duplicate();
                assert(self.rows@.len() == held.len());
                assert(held.len() == before.rows.len() + earlier.len());
                let row = match self.kind {
                    BackendKind::Relational => TelemetryRecord {
                        id: Some(self.rows.len() as u128),
                        ..copy
                    },
                    BackendKind::WideColumn => copy,
                };
                assert(row@ == stored_form(
                    before.kind,
                    before.rows.len() + earlier.len(),
                    views[k as int],
                ));
                self.rows.push(row);
                assert(self@.rows =~= held.push(row@));
                assert(self@.rows =~= before.rows + earlier.push(row@));
            }
            k = k + 1;
        }
        proof {
            assert(views.take(n as int) =~= views);
        }
        let report = BatchReport { submitted: n, failed: refused };
        proof {
            let listed = refused_indices(before.kind, views);
            assert forall|a: int| 0 <= a < report.failed@.len() implies #[trigger] report.failed@[a]
                < n by {
                assert(positions(report.failed@)[a] == report.failed@[a]);
                assert(listed.contains(listed[a]));
            }
            assert forall|a: int, b: int| 0 <= a < b < report.failed@.len() implies report.failed@[a]
                < report.failed@[b] by {
                assert(positions(report.failed@)[a] == report.failed@[a]);
                assert(positions(report.failed@)[b] == report.failed@[b]);
            }
        }
        report
    }

    /// Timestamp of the row at `i`.
    fn stamp(&self, i: usize) -> (stamp: i64)
        requires
            i < self@.rows.len(),
        ensures
            stamp == stamp_of(self@.rows[i as int]),
    {
        match self.rows[i].last_updated {
            Some(stamp) => stamp,
            None => 0,
        }
    }

    /// Tells whether the row at `i` is newer than the row at `j`.
    fn is_newer(&self, i: usize, j: usize) -> (yes: bool)
        requires
            i < self@.rows.len(),
            j < self@.rows.len(),
        ensures
            yes == newer(self@.rows, i as int, j as int),
    {
        let left = self.stamp(i);
        let right = self.stamp(j);
        left > right || (left == right && i > j)
    }

    /// The newest row that is older than the row at `bound`.
    fn newest_under(&self, bound: Option<usize>) -> (found: Option<usize>)
        requires
            bound matches Some(b) ==> b < self@.rows.len(),
        ensures
            position_of(found) == newest_below(self@.rows, self@.rows.len(), position_of(bound)),
            found matches Some(i) ==> i < self@.rows.len(),
    {
        let mut best: Option<usize> = None;
        let mut i: usize = 0;
        while i < self.rows.len()
            invariant
                i <= self.rows.len(),
                self.rows@.len() == self@.rows.len(),
                bound matches Some(b) ==> b < self@.rows.len(),
                position_of(best) == newest_below(self@.rows, i as nat, position_of(bound)),
                best matches Some(e) ==> e < i,
            decreases self.rows.len() - i,
        {
            let under = match bound {
                Some(b) => self.is_newer(b, i),
                None => true,
            };
            let over = match best {
                Some(e) => self.is_newer(i, e),
                None => true,
            };
            if under && over {
                best = Some(i);
            }
            i = i + 1;
        }
        best
    }

    /// Positions of the [`RECENT_LIMIT`] newest rows, newest first.
    pub fn recent_indices(&self) -> (picks: Vec<usize>)
        ensures
            positions(picks@) == recent_picks(self@.rows, RECENT_LIMIT as nat),
    {
        let mut picks: Vec<usize> = Vec::new();
        let mut round: usize = 0;
        assert(positions(picks@) =~= recent_picks(self@.rows, 0));
        while round < RECENT_LIMIT
            invariant
                round <= RECENT_LIMIT,
                picks@.len() <= round,
                positions(picks@) == recent_picks(self@.rows, round as nat),
                forall|a: int| 0 <= a < picks@.len() ==> #[trigger] picks@[a] < self@.rows.len(),
            decreases RECENT_LIMIT - round,
        {
            if picks.len() == round {
                let bound = if round == 0 {
                    None
                } else {
                    Some(picks[round - 1])
                };
                assert(position_of(bound) == if positions(picks@).len() == 0 {
                    None
                } else {
                    Some(positions(picks@).last())
                });
                match self.newest_under(bound) {
                    Some(i) => {
                        let ghost earlier = picks@;
                        picks.push(i);
                        assert(positions(picks@) =~= positions(earlier).push(i as int));
                    },
                    None => {},
                }
            }
            round = round + 1;
        }
        picks
    }

    /// Driver and speed of the [`RECENT_LIMIT`] newest rows, newest first;
    /// of two rows with one timestamp the one written later comes first. An
    /// engine that may not scan rejects the query.
    pub fn query_recent(&self) -> (result: Result<Vec<DriverSpeed>, QueryError>)
        ensures
            can_scan(self@) ==> (result matches Ok(listing) && listing_views(listing@)
                == recent_listing(self@.rows)),
            !can_scan(self@) ==> (result matches Err(error) && error@ == backend_error(
                Operation::QueryRecent,
                BackendFailure::Rejected,
            )),
    {
        if !self.scans() {
            return Err(QueryError::from_backend(Operation::QueryRecent, BackendFailure::Rejected));
        }
        let picks = self.recent_indices();
        proof {
            lemma_recent_picks(self@.rows, RECENT_LIMIT as nat);
        }
        let mut listing: Vec<DriverSpeed> = Vec::new();
        let mut a: usize = 0;
        while a < picks.len()
            invariant
                a <= picks.len(),
                self.rows@.len() == self@.rows.len(),
                forall|b: int| 0 <= b < picks@.len() ==> 0 <= #[trigger] positions(picks@)[b]
                    < self@.rows.len(),
                listing_views(listing@) == listing_of(self@.rows, positions(picks@).take(a as int)),
            decreases picks.len() - a,
        {
            let ghost earlier = listing@;
            assert(positions(picks@)[a as int] == picks@[a as int]);
            let row = &self.rows[picks[a]];
            let line = DriverSpeed { driver_name: row.driver_name.clone(), top_speed: row.top_speed };
            listing.push(line);
            assert(listing_views(listing@) =~= listing_views(earlier).push(line@));
            assert(listing_views(listing@) =~= listing_of(
                self@.rows,
                positions(picks@).take(a + 1),
            ));
            a = a + 1;
        }
        assert(positions(picks@).take(picks@.len() as int) =~= positions(picks@));
        Ok(listing)
    }

    /// Highest top speed among the rows of `driver` inside the window.
    fn scan_max(&self, driver: &str, cutoff: Option<i64>) -> (best: Option<i32>)
        ensures
            found_view(best) == max_speed_of(self@.rows, driver@, cutoff),
    {
        let wanted = String::from_str(driver);
        let mut best: Option<i32> = None;
        let mut i: usize = 0;
        while i < self.rows.len()
            invariant
                i <= self.rows.len(),
                wanted@ == driver@,
                found_view(best) == max_speed_of(self@.rows.take(i as int), driver@, cutoff),
            decreases self.rows.len() - i,
        {
            let row = &self.rows[i];
            proof {
                assert(self@.rows.take(i + 1).drop_last() =~= self@.rows.take(i as int));
                assert(self@.rows.take(i + 1).last() == row@);
            }
            let inside = match cutoff {
                Some(instant) => match row.last_updated {
                    Some(stamp) => stamp > instant,
                    None => false,
                },
                None => true,
            };
            if inside && row.driver_name == wanted {
                let better = match best {
                    Some(speed) => row.top_speed > speed,
                    None => true,
                };
                if better {
                    best = Some(row.top_speed);
                }
            }
            i = i + 1;
        }
        proof {
            assert(self@.rows.take(self@.rows.len() as int) =~= self@.rows);
        }
        best
    }

    /// Highest top speed among all rows of `driver`, with `None` for "no
    /// such row", which is not a speed of zero. An engine that may not scan
    /// rejects the query.
    pub fn query_max_speed(&self, driver: &str) -> (result: Result<Option<i32>, QueryError>)
        ensures
            can_scan(self@) ==> (result matches Ok(answer) && found_view(answer) == max_speed_of(
                self@.rows,
                driver@,
                None,
            )),
            !can_scan(self@) ==> (result matches Err(error) && error@ == backend_error(
                Operation::QueryMaxSpeed,
                BackendFailure::Rejected,
            )),
    {
        if self.scans() {
            Ok(self.scan_max(driver, None))
        } else {
            Err(QueryError::from_backend(Operation::QueryMaxSpeed, BackendFailure::Rejected))
        }
    }

    /// Highest top speed among the rows of `driver` whose timestamp is
    /// strictly greater than `cutoff`, with `None` for "no such row". A
    /// window without a cutoff has no beginning: every row of the driver
    /// counts. An engine that may not scan rejects the query.
    pub fn query_max_speed_since(&self, driver: &str, cutoff: Option<i64>) -> (result: Result<
        Option<i32>,
        QueryError,
    >)
        ensures
            can_scan(self@) ==> (result matches Ok(answer) && found_view(answer) == max_speed_of(
                self@.rows,
                driver@,
                cutoff,
            )),
            !can_scan(self@) ==> (result matches Err(error) && error@ == backend_error(
                Operation::QueryMaxSpeedSince,
                BackendFailure::Rejected,
            )),
    {
        if self.scans() {
            Ok(self.scan_max(driver, cutoff))
        } else {
            Err(QueryError::from_backend(Operation::QueryMaxSpeedSince, BackendFailure::Rejected))
        }
    }

    /// A copy of the row at `index`, if the table is that long.
    pub fn row(&self, index: usize) -> (found: Option<TelemetryRecord>)
        ensures
            index < self@.rows.len() ==> (found matches Some(row) && row@ == self@.rows[index as int]),
            index >= self@.rows.len() ==> found is None,
    {
        if index < self.rows.len() {
            Some(self.rows[index].duplicate())
        } else {
            None
        }
    }
}

} // verus!
