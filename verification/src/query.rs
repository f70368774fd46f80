//! What the three read queries answer over a table: the maximum speed of a
//! driver, in all rows or in a window of time, and the listing of the most
//! recent rows.

use vstd::prelude::*;
use vstd::set_lib::{lemma_int_range, lemma_len_subset, set_int_range};
use crate::record::RecordData;
use crate::table::{after_insert, write_refusal, BackendData};

verus! {

/// `row` lies inside the window that opens just after `cutoff`; without a
/// cutoff every row does.
pub open spec fn in_window(row: RecordData, cutoff: Option<i64>) -> bool {
    cutoff matches Some(instant) ==> (row.last_updated matches Some(stamp) && stamp > instant)
}

/// `row` belongs to `driver` and lies inside the window.
pub open spec fn counts_for(row: RecordData, driver: Seq<char>, cutoff: Option<i64>) -> bool {
    row.driver_name == driver && in_window(row, cutoff)
}

/// The highest top speed among the rows of `driver` inside the window, or
/// `None` where no row counts.
pub open spec fn max_speed_of(rows: Seq<RecordData>, driver: Seq<char>, cutoff: Option<i64>)
    -> Option<int>
    decreases rows.len(),
{
    if rows.len() == 0 {
        None
    } else {
        let earlier = max_speed_of(rows.drop_last(), driver, cutoff);
        let row = rows.last();
        if !counts_for(row, driver, cutoff) {
            earlier
        } else if earlier matches Some(best) && best >= row.top_speed {
            earlier
        } else {
            Some(row.top_speed)
        }
    }
}

/// How many rows the listing of recent rows holds at most.
pub const RECENT_LIMIT: usize = 5;

/// Mathematical content of a [`crate::backend::DriverSpeed`].
pub ghost struct DriverSpeedData {
    pub driver_name: Seq<char>,
    pub top_speed: int,
}

/// The timestamp of a row; a row without one counts as written at the
/// epoch.
pub open spec fn stamp_of(row: RecordData) -> i64 {
    match row.last_updated {
        Some(stamp) => stamp,
        None => 0,
    }
}

/// Row `i` is newer than row `j`: it carries the later timestamp, or the
/// same timestamp and was written later.
pub open spec fn newer(rows: Seq<RecordData>, i: int, j: int) -> bool {
    stamp_of(rows[i]) > stamp_of(rows[j]) || (stamp_of(rows[i]) == stamp_of(rows[j]) && i > j)
}

/// Row `j` is older than the row at `bound`; without a bound every row
/// passes.
pub open spec fn below(rows: Seq<RecordData>, bound: Option<int>, j: int) -> bool {
    bound matches Some(b) ==> newer(rows, b, j)
}

/// The newest of the first `n` rows that are older than the row at
/// `bound`.
pub open spec fn newest_below(rows: Seq<RecordData>, n: nat, bound: Option<int>) -> Option<int>
    decreases n,
{
    if n == 0 {
        None
    } else {
        let earlier = newest_below(rows, (n - 1) as nat, bound);
        if below(rows, bound, n - 1) && (earlier matches Some(e) ==> newer(rows, n - 1, e)) {
            Some(n - 1)
        } else {
            earlier
        }
    }
}

/// The positions of the `limit` newest rows, newest first: each is the
/// newest row older than the one before it. Shorter where the table holds
/// fewer rows.
pub open spec fn recent_picks(rows: Seq<RecordData>, limit: nat) -> Seq<int>
    decreases limit,
{
    if limit == 0 {
        Seq::empty()
    } else {
        let earlier = recent_picks(rows, (limit - 1) as nat);
        if earlier.len() < limit - 1 {
            earlier
        } else {
            let bound = if earlier.len() == 0 {
                None
            } else {
                Some(earlier.last())
            };
            match newest_below(rows, rows.len(), bound) {
                Some(i) => earlier.push(i),
                None => earlier,
            }
        }
    }
}

/// Driver and speed of the rows at `picks`, in that order.
pub open spec fn listing_of(rows: Seq<RecordData>, picks: Seq<int>) -> Seq<DriverSpeedData> {
    Seq::new(
        picks.len(),
        |a: int|
            DriverSpeedData {
                driver_name: rows[picks[a]].driver_name,
                top_speed: rows[picks[a]].top_speed,
            },
    )
}

/// Driver and speed of the [`RECENT_LIMIT`] newest rows, newest first.
pub open spec fn recent_listing(rows: Seq<RecordData>) -> Seq<DriverSpeedData> {
    listing_of(rows, recent_picks(rows, RECENT_LIMIT as nat))
}

/// What `newest_below` finds is a row among the first `n`, older than the
/// bound and newer than every other such row; it finds nothing only where
/// no such row exists.
pub proof fn lemma_newest_below(rows: Seq<RecordData>, n: nat, bound: Option<int>)
    ensures
        match newest_below(rows, n, bound) {
            Some(i) => 0 <= i < n && below(rows, bound, i) && forall|j: int|
                0 <= j < n && #[trigger] below(rows, bound, j) ==> j == i || newer(rows, i, j),
            None => forall|j: int| 0 <= j < n ==> !#[trigger] below(rows, bound, j),
        },
    decreases n,
{
    if n > 0 {
        lemma_newest_below(rows, (n - 1) as nat, bound);
    }
}

/// The recent rows, characterised: at most `limit` positions of the table,
/// each newer than the next, every row left out older than every row
/// taken, and no row left out while there is room.
pub proof fn lemma_recent_picks(rows: Seq<RecordData>, limit: nat)
    ensures
        recent_picks(rows, limit).len() <= limit,
        forall|a: int|
            0 <= a < recent_picks(rows, limit).len() ==> 0 <= #[trigger] recent_picks(
                rows,
                limit,
            )[a] < rows.len(),
        forall|a: int, b: int|
            0 <= a < b < recent_picks(rows, limit).len() ==> newer(
                rows,
                #[trigger] recent_picks(rows, limit)[a],
                #[trigger] recent_picks(rows, limit)[b],
            ),
        forall|a: int, j: int|
            0 <= a < recent_picks(rows, limit).len() && 0 <= j < rows.len() && !recent_picks(
                rows,
                limit,
            ).contains(j) ==> #[trigger] newer(rows, recent_picks(rows, limit)[a], j),
        recent_picks(rows, limit).len() < limit ==> forall|j: int|
            0 <= j < rows.len() ==> #[trigger] recent_picks(rows, limit).contains(j),
    decreases limit,
{
    let picks = recent_picks(rows, limit);
    if limit > 0 {
        let earlier = recent_picks(rows, (limit - 1) as nat);
        lemma_recent_picks(rows, (limit - 1) as nat);
        if earlier.len() == limit - 1 {
            let bound = if earlier.len() == 0 {
                None
            } else {
                Some(earlier.last())
            };
            lemma_newest_below(rows, rows.len(), bound);
            match newest_below(rows, rows.len(), bound) {
                Some(i) => {
                    assert(picks == earlier.push(i));
                    assert forall|j: int| 0 <= j < rows.len() && !picks.contains(j) implies below(
                        rows,
                        bound,
                        j,
                    ) && j != i by {
                        assert(picks[earlier.len() as int] == i);
                        if earlier.len() > 0 {
                            if earlier.contains(j) {
                                let k = choose|k: int| 0 <= k < earlier.len() && earlier[k] == j;
                                assert(picks[k] == j);
                            }
                            assert(newer(rows, earlier[earlier.len() - 1], j));
                        }
                    }
                    assert forall|a: int, b: int| 0 <= a < b < picks.len() implies newer(
                        rows,
                        #[trigger] picks[a],
                        #[trigger] picks[b],
                    ) by {
                        if b == earlier.len() {
                            assert(below(rows, bound, i));
                            if a < earlier.len() - 1 {
                                assert(newer(rows, earlier[a], earlier[earlier.len() - 1]));
                            }
                        } else {
                            assert(newer(rows, earlier[a], earlier[b]));
                        }
                    }
                    assert forall|a: int, j: int|
                        0 <= a < picks.len() && 0 <= j < rows.len() && !picks.contains(
                            j,
                        ) implies #[trigger] newer(rows, picks[a], j) by {
                        assert(below(rows, bound, j) && j != i);
                        assert(newer(rows, i, j));
                        if a < earlier.len() {
                            assert(newer(rows, picks[a], picks[earlier.len() as int]));
                        }
                    }
                },
                None => {
                    assert(picks == earlier);
                    assert forall|j: int| 0 <= j < rows.len() implies #[trigger] picks.contains(
                        j,
                    ) by {
                        assert(!below(rows, bound, j));
                        let last = earlier[earlier.len() - 1];
                        if !earlier.contains(j) {
                            assert(newer(rows, last, j));
                        }
                    }
                },
            }
        }
    }
}

/// The maximum speed is a true maximum: where a speed is reported, a row
/// that counts carries it and no row that counts is faster; where none is
/// reported, no row counts.
pub proof fn max_speed_is_true_maximum(
    rows: Seq<RecordData>,
    driver: Seq<char>,
    cutoff: Option<i64>,
)
    ensures
        match max_speed_of(rows, driver, cutoff) {
            Some(best) => (exists|i: int|
                0 <= i < rows.len() && counts_for(#[trigger] rows[i], driver, cutoff)
                    && rows[i].top_speed == best) && (forall|i: int|
                0 <= i < rows.len() && counts_for(#[trigger] rows[i], driver, cutoff)
                    ==> rows[i].top_speed <= best),
            None => forall|i: int|
                0 <= i < rows.len() ==> !counts_for(#[trigger] rows[i], driver, cutoff),
        },
    decreases rows.len(),
{
    if rows.len() > 0 {
        let front = rows.drop_last();
        let last = rows.len() - 1;
        max_speed_is_true_maximum(front, driver, cutoff);
        assert forall|i: int| 0 <= i < front.len() implies front[i] == rows[i] by {}
        match max_speed_of(rows, driver, cutoff) {
            Some(best) => {
                if counts_for(rows[last], driver, cutoff) && rows[last].top_speed == best {
                } else {
                    let i = choose|i: int|
                        0 <= i < front.len() && counts_for(#[trigger] front[i], driver, cutoff)
                            && front[i].top_speed == best;
                    assert(counts_for(rows[i], driver, cutoff) && rows[i].top_speed == best);
                }
                assert forall|i: int|
                    0 <= i < rows.len() && counts_for(
                        #[trigger] rows[i],
                        driver,
                        cutoff,
                    ) implies rows[i].top_speed <= best by {
                    if i < last {
                        assert(counts_for(front[i], driver, cutoff));
                    }
                }
            },
            None => {
                assert forall|i: int| 0 <= i < rows.len() implies !counts_for(
                    #[trigger] rows[i],
                    driver,
                    cutoff,
                ) by {
                    if i < last {
                        assert(!counts_for(front[i], driver, cutoff));
                    }
                }
            },
        }
    }
}

/// An empty table reports no maximum speed for any driver, in any window:
/// the answer is "no data", never zero.
pub proof fn empty_table_has_no_max_speed(driver: Seq<char>, cutoff: Option<i64>)
    ensures
        max_speed_of(Seq::empty(), driver, cutoff) is None,
{
}

/// Writing a record of `driver` that is faster than the reported maximum
/// makes its speed the new maximum, which is strictly higher.
pub proof fn faster_record_raises_max(data: BackendData, record: RecordData, best: int)
    requires
        write_refusal(data.kind, record) is None,
        max_speed_of(data.rows, record.driver_name, None) == Some(best),
        record.top_speed > best,
    ensures
        max_speed_of(after_insert(data, record).rows, record.driver_name, None) == Some(
            record.top_speed,
        ),
{
    let rows = after_insert(data, record).rows;
    assert(rows.drop_last() =~= data.rows);
}

/// Writing a record never lowers the maximum of any driver, and leaves the
/// maximum of every other driver as it was.
pub proof fn insert_never_lowers_max(data: BackendData, record: RecordData, driver: Seq<char>)
    ensures
        match max_speed_of(data.rows, driver, None) {
            Some(before) => max_speed_of(after_insert(data, record).rows, driver, None) matches Some(
                after,
            ) && after >= before,
            None => true,
        },
        record.driver_name != driver ==> max_speed_of(after_insert(data, record).rows, driver, None)
            == max_speed_of(data.rows, driver, None),
{
    if write_refusal(data.kind, record) is None {
        let rows = after_insert(data, record).rows;
        assert(rows.drop_last() =~= data.rows);
    }
}

/// A window that opens later never reports a higher maximum: what it
/// reports, the wider window reports too or exceeds.
pub proof fn narrower_window_never_raises_max(
    rows: Seq<RecordData>,
    driver: Seq<char>,
    wider: Option<i64>,
    narrower: i64,
)
    requires
        wider matches Some(instant) ==> instant <= narrower,
    ensures
        match max_speed_of(rows, driver, Some(narrower)) {
            Some(inner) => max_speed_of(rows, driver, wider) matches Some(outer) && outer >= inner,
            None => true,
        },
{
    max_speed_is_true_maximum(rows, driver, Some(narrower));
    max_speed_is_true_maximum(rows, driver, wider);
    if max_speed_of(rows, driver, Some(narrower)) is Some {
        let inner = max_speed_of(rows, driver, Some(narrower))->0;
        let i = choose|i: int|
            0 <= i < rows.len() && counts_for(#[trigger] rows[i], driver, Some(narrower))
                && rows[i].top_speed == inner;
        assert(counts_for(rows[i], driver, wider));
    }
}

/// Taking a row away never raises the maximum: the answer stays or drops,
/// or turns into "no data".
pub proof fn removing_a_row_never_raises_max(
    rows: Seq<RecordData>,
    driver: Seq<char>,
    cutoff: Option<i64>,
    index: int,
)
    requires
        0 <= index < rows.len(),
    ensures
        match max_speed_of(rows.remove(index), driver, cutoff) {
            Some(after) => max_speed_of(rows, driver, cutoff) matches Some(before) && before
                >= after,
            None => true,
        },
{
    let fewer = rows.remove(index);
    max_speed_is_true_maximum(fewer, driver, cutoff);
    max_speed_is_true_maximum(rows, driver, cutoff);
    if max_speed_of(fewer, driver, cutoff) is Some {
        let after = max_speed_of(fewer, driver, cutoff)->0;
        let i = choose|i: int|
            0 <= i < fewer.len() && counts_for(#[trigger] fewer[i], driver, cutoff)
                && fewer[i].top_speed == after;
        let j = if i < index {
            i
        } else {
            i + 1
        };
        assert(rows[j] == fewer[i]);
        assert(counts_for(rows[j], driver, cutoff));
    }
}

/// The listing of recent rows holds as many rows as the table has, up to
/// the limit.
pub proof fn lemma_recent_picks_len(rows: Seq<RecordData>, limit: nat)
    ensures
        recent_picks(rows, limit).len() == if rows.len() < limit {
            rows.len()
        } else {
            limit
        },
{
    let picks = recent_picks(rows, limit);
    lemma_recent_picks(rows, limit);
    assert(picks.no_duplicates()) by {
        assert forall|a: int, b: int|
            0 <= a < picks.len() && 0 <= b < picks.len() && a != b implies picks[a]
            != picks[b] by {
            if a < b {
                assert(newer(rows, picks[a], picks[b]));
            } else {
                assert(newer(rows, picks[b], picks[a]));
            }
        }
    }
    picks.unique_seq_to_set();
    lemma_int_range(0, rows.len() as int);
    let all = set_int_range(0, rows.len() as int);
    assert(picks.to_set().subset_of(all)) by {
        assert forall|j: int| picks.to_set().contains(j) implies all.contains(j) by {
            let a = choose|a: int| 0 <= a < picks.len() && picks[a] == j;
            assert(0 <= picks[a] < rows.len());
        }
    }
    lemma_len_subset(picks.to_set(), all);
    if picks.len() < limit {
        assert(all.subset_of(picks.to_set())) by {
            assert forall|j: int| all.contains(j) implies picks.to_set().contains(j) by {
                assert(picks.contains(j));
            }
        }
        lemma_len_subset(all, picks.to_set());
    }
}

/// The listing of recent rows is ordered by timestamp, newest first, holds
/// at most [`RECENT_LIMIT`] lines, and every line gives the driver and the
/// speed of a row of the table; no row left out is newer than a row
/// listed.
pub proof fn recent_listing_is_newest_first(rows: Seq<RecordData>)
    ensures
        recent_listing(rows).len() <= RECENT_LIMIT,
        recent_listing(rows).len() == recent_picks(rows, RECENT_LIMIT as nat).len(),
        recent_listing(rows).len() == if rows.len() < RECENT_LIMIT {
            rows.len()
        } else {
            RECENT_LIMIT as nat
        },
        forall|a: int|
            0 <= a < recent_listing(rows).len() ==> {
                let i = recent_picks(rows, RECENT_LIMIT as nat)[a];
                &&& 0 <= i < rows.len()
                &&& (#[trigger] recent_listing(rows)[a]).driver_name == rows[i].driver_name
                &&& recent_listing(rows)[a].top_speed == rows[i].top_speed
            },
        forall|a: int, b: int|
            0 <= a < b < recent_listing(rows).len() ==> stamp_of(
                rows[#[trigger] recent_picks(rows, RECENT_LIMIT as nat)[a]],
            ) >= stamp_of(rows[#[trigger] recent_picks(rows, RECENT_LIMIT as nat)[b]]),
        forall|a: int, j: int|
            0 <= a < recent_listing(rows).len() && 0 <= j < rows.len() && !recent_picks(
                rows,
                RECENT_LIMIT as nat,
            ).contains(j) ==> stamp_of(rows[#[trigger] recent_picks(rows, RECENT_LIMIT as nat)[a]])
                >= stamp_of(#[trigger] rows[j]),
{
    let picks = recent_picks(rows, RECENT_LIMIT as nat);
    lemma_recent_picks(rows, RECENT_LIMIT as nat);
    lemma_recent_picks_len(rows, RECENT_LIMIT as nat);
    assert forall|a: int, b: int| 0 <= a < b < picks.len() implies stamp_of(
        rows[#[trigger] picks[a]],
    ) >= stamp_of(rows[#[trigger] picks[b]]) by {
        assert(newer(rows, picks[a], picks[b]));
    }
    assert forall|a: int, j: int|
        0 <= a < picks.len() && 0 <= j < rows.len() && !picks.contains(j) implies stamp_of(
        rows[#[trigger] picks[a]],
    ) >= stamp_of(#[trigger] rows[j]) by {
        assert(newer(rows, picks[a], j));
    }
}

} // verus!
