//! Throughput accounting over windows of one second.

use vstd::prelude::*;

verus! {

/// Length of a window in nanoseconds: one second.
pub const WINDOW_NANOS: u64 = 1_000_000_000;

/// The counter of the ingestion loop: how many records were written since
/// the window opened, and when it opened, in nanoseconds on a monotonic
/// clock.
#[derive(Clone, Copy, Debug, PartialEq, Eq, Structural)]
pub struct ThroughputWindow {
    pub count: u64,
    pub window_start: u64,
}

/// What a window had counted when it was closed.
#[derive(Clone, Copy, Debug, PartialEq, Eq, Structural)]
pub struct RateReport {
    pub count: u64,
    pub elapsed_nanos: u64,
}

/// A window that opens at `now_nanos` with nothing counted.
pub open spec fn fresh(now_nanos: u64) -> ThroughputWindow {
    ThroughputWindow { count: 0, window_start: now_nanos }
}

/// The window after `written` more records; the count stops at the top of
/// `u64`.
pub open spec fn counted(window: ThroughputWindow, written: nat) -> ThroughputWindow {
    ThroughputWindow {
        count: if window.count + written <= u64::MAX {
            (window.count + written) as u64
        } else {
            u64::MAX
        },
        ..window
    }
}

/// The window after `times` single writes, one after the other.
pub open spec fn counted_one_by_one(window: ThroughputWindow, times: nat) -> ThroughputWindow
    decreases times,
{
    if times == 0 {
        window
    } else {
        counted(counted_one_by_one(window, (times - 1) as nat), 1)
    }
}

/// Nanoseconds from the opening of the window to `now_nanos`; none where
/// the clock reads earlier than the opening.
pub open spec fn elapsed_nanos(window: ThroughputWindow, now_nanos: u64) -> u64 {
    if now_nanos >= window.window_start {
        (now_nanos - window.window_start) as u64
    } else {
        0
    }
}

/// What a look at the clock does to the window: once a second or more has
/// gone by, the window is closed with a report and a new one opens at
/// `now_nanos`; before that nothing changes.
pub open spec fn observed(window: ThroughputWindow, now_nanos: u64) -> (
    ThroughputWindow,
    Option<RateReport>,
) {
    if elapsed_nanos(window, now_nanos) >= WINDOW_NANOS {
        (
            fresh(now_nanos),
            Some(
                RateReport {
                    count: window.count,
                    elapsed_nanos: elapsed_nanos(window, now_nanos),
                },
            ),
        )
    } else {
        (window, None)
    }
}

impl RateReport {
    /// Records per second, rounded down: the count divided by the elapsed
    /// seconds.
    pub open spec fn spec_per_second(self) -> int {
        self.count * 1_000_000_000 / (self.elapsed_nanos as int)
    }

    /// Records per second, rounded down.
    pub fn per_second(&self) -> (rate: u64)
        requires
            self.elapsed_nanos >= WINDOW_NANOS,
        ensures
            rate == self.spec_per_second(),
            rate <= self.count,
    {
        let scaled: u128 = (self.count as u128) * 1_000_000_000;
        let rate: u128 = scaled / (self.elapsed_nanos as u128);
        assert(rate <= self.count) by (nonlinear_arith)
            requires
                rate == scaled / (self.elapsed_nanos as u128),
                scaled == self.count * 1_000_000_000,
                self.elapsed_nanos >= 1_000_000_000,
        ;
        rate as u64
    }
}

impl ThroughputWindow {
    /// A window that opens at `now_nanos` with nothing counted.
    pub fn new(now_nanos: u64) -> (window: ThroughputWindow)
        ensures
            window == fresh(now_nanos),
    {
        ThroughputWindow { count: 0, window_start: now_nanos }
    }

    /// Counts `written` more records.
    pub fn record_successes(&mut self, written: u64)
        ensures
            *final(self) == counted(*old(self), written as nat),
    {
        self.count = if written <= u64::MAX - self.count {
            self.count + written
        } else {
            u64::MAX
        };
    }

    /// Counts one more record.
    pub fn record_success(&mut self)
        ensures
            *final(self) == counted(*old(self), 1),
    {
        self.record_successes(1);
    }

    /// Looks at the clock: closes the window with a report once a second
    /// or more has gone by, and opens the next.
    pub fn observe(&mut self, now_nanos: u64) -> (report: Option<RateReport>)
        ensures
            (*final(self), report) == observed(*old(self), now_nanos),
    {
        let elapsed = if now_nanos >= self.window_start {
            now_nanos - self.window_start
        } else {
            0
        };
        if elapsed >= WINDOW_NANOS {
            let report = RateReport { count: self.count, elapsed_nanos: elapsed };
            self.count = 0;
            self.window_start = now_nanos;
            Some(report)
        } else {
            None
        }
    }
}

/// Single writes add up: `times` of them count as `times`.
pub proof fn lemma_counted_one_by_one(window: ThroughputWindow, times: nat)
    ensures
        counted_one_by_one(window, times) == counted(window, times),
    decreases times,
{
    if times > 0 {
        lemma_counted_one_by_one(window, (times - 1) as nat);
    }
}

/// After exactly `writes` successful writes in a window, the report that
/// closes it carries that count and the measured time, so that its rate is
/// the count divided by the elapsed seconds, and the next window starts
/// from nothing.
pub proof fn report_counts_every_write(opened: u64, writes: nat, now_nanos: u64)
    requires
        writes <= u64::MAX,
        now_nanos - opened >= WINDOW_NANOS,
    ensures
        observed(counted_one_by_one(fresh(opened), writes), now_nanos) == (
            fresh(now_nanos),
            Some(RateReport { count: writes as u64, elapsed_nanos: (now_nanos - opened) as u64 }),
        ),
        (RateReport {
            count: writes as u64,
            elapsed_nanos: (now_nanos - opened) as u64,
        }).spec_per_second() == (writes as int) * 1_000_000_000 / (now_nanos - opened),
{
    lemma_counted_one_by_one(fresh(opened), writes);
}

/// Before a second has gone by nothing is reported and nothing is reset.
pub proof fn no_report_inside_the_window(window: ThroughputWindow, now_nanos: u64)
    requires
        now_nanos - window.window_start < WINDOW_NANOS,
    ensures
        observed(window, now_nanos) == (window, None::<RateReport>),
{
}

} // verus!
