//! The two clocks: the wall clock that stamps records and opens windows,
//! and the stopwatch that times a query.

use vstd::prelude::*;
use crate::span::Span;

verus! {

/// A point on the monotonic clock of `std`.
#[verifier::external_type_specification]
#[verifier::external_body]
pub struct ExInstant(std::time::Instant);

/// A point on the wall clock of `std`.
#[verifier::external_type_specification]
#[verifier::external_body]
pub struct ExSystemTime(std::time::SystemTime);

/// The milliseconds that a reading of the wall clock comes to: the whole
/// milliseconds since the Unix epoch, at most the top of `i64`, and none
/// where the clock reads before the epoch.
pub open spec fn clock_millis(reading: Option<Span>) -> i64 {
    match reading {
        Some(span) => if span.secs * 1000 + span.nanos / 1_000_000 <= i64::MAX {
            (span.secs * 1000 + span.nanos / 1_000_000) as i64
        } else {
            i64::MAX
        },
        None => 0,
    }
}

/// Reads the wall clock with `std::time::SystemTime::now`.
#[verifier::external_body]
fn system_now() -> std::time::SystemTime {
    std::time::SystemTime::now()
}

/// Measures a point in time from the Unix epoch with
/// `std::time::SystemTime::duration_since`: the seconds and sub-second
/// nanoseconds gone by, or `None` where the point lies before the epoch.
/// Trusted: that the nanoseconds of a duration stay below one second.
#[verifier::external_body]
fn since_epoch(point: &std::time::SystemTime) -> (reading: Option<Span>)
    ensures
        reading matches Some(span) ==> span.wf(),
{
    match point.duration_since(std::time::UNIX_EPOCH) {
        Ok(elapsed) => Some(Span { secs: elapsed.as_secs(), nanos: elapsed.subsec_nanos() }),
        Err(_) => None,
    }
}

/// Reads the monotonic clock with `std::time::Instant::now`.
#[verifier::external_body]
pub(crate) fn stopwatch_start() -> std::time::Instant {
    std::time::Instant::now()
}

/// Time gone by since `start`, from `std::time::Instant::elapsed`, as
/// seconds and the nanoseconds below a second. Trusted: that the
/// nanoseconds of a duration stay below one second.
#[verifier::external_body]
pub(crate) fn stopwatch_elapsed(start: &std::time::Instant) -> (elapsed: Span)
    ensures
        elapsed.wf(),
{
    let elapsed = start.elapsed();
    Span { secs: elapsed.as_secs(), nanos: elapsed.subsec_nanos() }
}

/// The milliseconds that a reading of the wall clock comes to.
pub fn millis_of(reading: Option<Span>) -> (millis: i64)
    ensures
        millis == clock_millis(reading),
        0 <= millis,
{
    match reading {
        Some(span) => {
            let millis: u128 = (span.secs as u128) * 1000 + (span.nanos as u128) / 1_000_000;
            if millis <= i64::MAX as u128 {
                millis as i64
            } else {
                i64::MAX
            }
        },
        None => 0,
    }
}

/// The wall clock in milliseconds since the Unix epoch. Whatever the clock
/// reads, the result is not negative: a clock set before the epoch reads
/// as the epoch.
pub fn wall_clock_millis() -> (millis: i64)
    ensures
        0 <= millis,
{
    let now = system_now();
    millis_of(since_epoch(&now))
}

} // verus!
