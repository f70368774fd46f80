//! The query service: three read operations that validate their input, ask
//! the engine, time the question and word the reply.

use vstd::prelude::*;
use vstd::string::StringExecFns;
use crate::backend::{found_view, listing_views, Backend, DriverSpeed};
use crate::clock::{stopwatch_elapsed, stopwatch_start, wall_clock_millis};
use crate::error::{
    backend_error, invalid_argument, BackendFailure, ErrorKind, Operation, QueryError,
    QueryErrorData,
};
use crate::query::{max_speed_of, recent_listing, DriverSpeedData, RECENT_LIMIT};
use crate::render::{append_footer, decimal, decimal_text, joined_lines, listing_text, with_footer};
use crate::span::{
    accepted_span, cutoff, cutoff_of, invalid_since, parse_since, positive_span, Span,
};
use crate::table::{can_scan, BackendData};

verus! {

/// What a query found.
#[derive(Clone, Debug, PartialEq, Eq)]
pub enum Answer {
    /// The most recent rows, newest first.
    Recent(Vec<DriverSpeed>),
    /// The maximum speed of the driver.
    MaxSpeed(i32),
    /// No row counted; this is not a speed of zero.
    NoData,
}

/// Mathematical content of an [`Answer`].
pub ghost enum AnswerData {
    Recent(Seq<DriverSpeedData>),
    MaxSpeed(int),
    NoData,
}

impl View for Answer {
    type V = AnswerData;

    open spec fn view(&self) -> AnswerData {
        match self {
            Answer::Recent(listing) => AnswerData::Recent(listing_views(listing@)),
            Answer::MaxSpeed(speed) => AnswerData::MaxSpeed(*speed as int),
            Answer::NoData => AnswerData::NoData,
        }
    }
}

/// An answer together with the time the engine took to give it.
#[derive(Clone, Debug, PartialEq, Eq)]
pub struct Reply {
    pub answer: Answer,
    pub latency: Span,
}

/// Mathematical content of a [`Reply`].
pub ghost struct ReplyData {
    pub answer: AnswerData,
    pub latency: Span,
}

impl View for Reply {
    type V = ReplyData;

    open spec fn view(&self) -> ReplyData {
        ReplyData { answer: self.answer@, latency: self.latency }
    }
}

/// The answer that a maximum stands for: the speed, or "no data".
pub open spec fn max_answer(found: Option<int>) -> AnswerData {
    match found {
        Some(speed) => AnswerData::MaxSpeed(speed),
        None => AnswerData::NoData,
    }
}

/// The body of a reply: the listing or the speed with the footer that
/// reports the query time, or the words for "no data".
pub open spec fn reply_text(reply: ReplyData) -> Seq<char> {
    match reply.answer {
        AnswerData::Recent(listing) => with_footer(joined_lines(listing), reply.latency),
        AnswerData::MaxSpeed(speed) => with_footer(decimal(speed), reply.latency),
        AnswerData::NoData => "No data available"@,
    }
}

/// Content of the error for a driver name that is empty.
pub open spec fn empty_driver() -> QueryErrorData {
    invalid_argument("driver_name cannot be empty"@)
}

/// What the listing of recent rows comes to on a given engine.
pub open spec fn recent_outcome(data: BackendData) -> Result<AnswerData, QueryErrorData> {
    if can_scan(data) {
        Ok(AnswerData::Recent(recent_listing(data.rows)))
    } else {
        Err(backend_error(Operation::QueryRecent, BackendFailure::Rejected))
    }
}

/// What the maximum speed of `driver` comes to on a given engine: the name
/// is checked before the engine is asked.
pub open spec fn max_speed_outcome(data: BackendData, driver: Seq<char>) -> Result<
    AnswerData,
    QueryErrorData,
> {
    if driver.len() == 0 {
        Err(empty_driver())
    } else if can_scan(data) {
        Ok(max_answer(max_speed_of(data.rows, driver, None)))
    } else {
        Err(backend_error(Operation::QueryMaxSpeed, BackendFailure::Rejected))
    }
}

/// The window that a span given as text opens at `now_millis`: the instant
/// after which a row counts, or no instant where the window reaches back
/// past every timestamp. `None` where the text is not accepted.
pub open spec fn window_of(since: Seq<char>, now_millis: i64) -> Option<Option<i64>> {
    match accepted_span(since) {
        Some(span) => Some(cutoff_of(now_millis, span)),
        None => None,
    }
}

/// What the maximum speed of `driver` since a span ago comes to on a given
/// engine at `now_millis`: name and span are checked, in this order,
/// before the engine is asked.
pub open spec fn max_speed_since_outcome(
    data: BackendData,
    driver: Seq<char>,
    since: Seq<char>,
    now_millis: i64,
) -> Result<AnswerData, QueryErrorData> {
    if driver.len() == 0 {
        Err(empty_driver())
    } else {
        match window_of(since, now_millis) {
            None => Err(invalid_since()),
            Some(cutoff) => if can_scan(data) {
                Ok(max_answer(max_speed_of(data.rows, driver, cutoff)))
            } else {
                Err(backend_error(Operation::QueryMaxSpeedSince, BackendFailure::Rejected))
            },
        }
    }
}

/// The content of an outcome.
pub open spec fn outcome_view(result: Result<Answer, QueryError>) -> Result<
    AnswerData,
    QueryErrorData,
> {
    match result {
        Ok(answer) => Ok(answer@),
        Err(error) => Err(error@),
    }
}

/// The content of a timed outcome, without the time.
pub open spec fn reply_outcome(result: Result<Reply, QueryError>) -> Result<
    AnswerData,
    QueryErrorData,
> {
    match result {
        Ok(reply) => Ok(reply@.answer),
        Err(error) => Err(error@),
    }
}

impl Reply {
    /// The body of the reply.
    pub fn render(&self) -> (text: String)
        requires
            self.latency.wf(),
        ensures
            text@ == reply_text(self@),
    {
        match &self.answer {
            Answer::Recent(listing) => append_footer(listing_text(listing), self.latency),
            Answer::MaxSpeed(speed) => append_footer(decimal_text(*speed), self.latency),
            Answer::NoData => String::from_str("No data available"),
        }
    }
}

/// Checks a driver name: it must not be empty.
pub fn check_driver(driver_name: &str) -> (result: Result<(), QueryError>)
    ensures
        driver_name@.len() > 0 ==> result is Ok,
        driver_name@.len() == 0 ==> (result matches Err(error) && error@ == empty_driver()),
{
    if driver_name.is_empty() {
        Err(QueryError::invalid("driver_name cannot be empty"))
    } else {
        Ok(())
    }
}

/// Reads a relative span and steps back by it from `now_millis`. The
/// result is the instant after which a row counts, or no instant where the
/// span reaches back past every timestamp. Only a text that is not
/// accepted as a span is an error.
pub fn window_start(since_time: &str, now_millis: i64) -> (result: Result<Option<i64>, QueryError>)
    ensures
        match window_of(since_time@, now_millis) {
            Some(cutoff) => result == Ok::<Option<i64>, QueryError>(cutoff),
            None => result matches Err(error) && error@ == invalid_since(),
        },
{
    match parse_since(since_time) {
        Ok(span) => Ok(cutoff(now_millis, span)),
        Err(error) => Err(error),
    }
}

/// The statement that answers for the maximum speed in a window: the one
/// with a cutoff where the window has one, the one over all rows where it
/// has none.
pub fn window_statement(cutoff: Option<i64>) -> (operation: Operation)
    ensures
        operation == if cutoff is Some {
            Operation::QueryMaxSpeedSince
        } else {
            Operation::QueryMaxSpeed
        },
{
    match cutoff {
        Some(_) => Operation::QueryMaxSpeedSince,
        None => Operation::QueryMaxSpeed,
    }
}

/// Words the answer of an engine to a question for a maximum speed.
pub fn max_speed_answer(found: Option<i32>) -> (answer: Answer)
    ensures
        answer@ == max_answer(found_view(found)),
{
    match found {
        Some(speed) => Answer::MaxSpeed(speed),
        None => Answer::NoData,
    }
}

/// The most recent rows of the engine.
pub fn answer_recent(backend: &Backend) -> (result: Result<Answer, QueryError>)
    ensures
        outcome_view(result) == recent_outcome(backend@),
{
    match backend.query_recent() {
        Ok(listing) => Ok(Answer::Recent(listing)),
        Err(error) => Err(error),
    }
}

/// The maximum speed of a driver over all rows.
pub fn answer_max_speed(backend: &Backend, driver_name: &str) -> (result: Result<
    Answer,
    QueryError,
>)
    ensures
        outcome_view(result) == max_speed_outcome(backend@, driver_name@),
{
    match check_driver(driver_name) {
        Err(error) => Err(error),
        Ok(()) => match backend.query_max_speed(driver_name) {
            Ok(found) => Ok(max_speed_answer(found)),
            Err(error) => Err(error),
        },
    }
}

/// The maximum speed of a driver over the rows written less than a span
/// before `now_millis`.
pub fn answer_max_speed_since(
    backend: &Backend,
    driver_name: &str,
    since_time: &str,
    now_millis: i64,
) -> (result: Result<Answer, QueryError>)
    ensures
        outcome_view(result) == max_speed_since_outcome(
            backend@,
            driver_name@,
            since_time@,
            now_millis,
        ),
{
    match check_driver(driver_name) {
        Err(error) => Err(error),
        Ok(()) => match window_start(since_time, now_millis) {
            Err(error) => Err(error),
            Ok(window) => match backend.query_max_speed_since(driver_name, window) {
                Ok(found) => Ok(max_speed_answer(found)),
                Err(error) => Err(error),
            },
        },
    }
}

/// Lists the most recent rows and times the question.
pub fn drivers_by_last_updated(backend: &Backend) -> (result: Result<Reply, QueryError>)
    ensures
        reply_outcome(result) == recent_outcome(backend@),
        result matches Ok(reply) ==> reply.latency.wf(),
{
    let start = stopwatch_start();
    let outcome = answer_recent(backend);
    let latency = stopwatch_elapsed(&start);
    match outcome {
        Ok(answer) => Ok(Reply { answer, latency }),
        Err(error) => Err(error),
    }
}

/// Finds the maximum speed of a driver and times the question.
pub fn max_speed_for_driver(backend: &Backend, driver_name: &str) -> (result: Result<
    Reply,
    QueryError,
>)
    ensures
        reply_outcome(result) == max_speed_outcome(backend@, driver_name@),
        result matches Ok(reply) ==> reply.latency.wf(),
{
    let start = stopwatch_start();
    let outcome = answer_max_speed(backend, driver_name);
    let latency = stopwatch_elapsed(&start);
    match outcome {
        Ok(answer) => Ok(Reply { answer, latency }),
        Err(error) => Err(error),
    }
}

/// Finds the maximum speed of a driver since a span before now, read from
/// the wall clock, and times the question. Whatever the clock says, the
/// outcome is the one that belongs to an instant at or after the epoch,
/// and a named driver, an engine that scans and an accepted span always
/// get an answer.
pub fn max_speed_for_driver_in_timeframe(
    backend: &Backend,
    driver_name: &str,
    since_time: &str,
) -> (result: Result<Reply, QueryError>)
    ensures
        exists|now_millis: i64|
            0 <= now_millis && reply_outcome(result) == #[trigger] max_speed_since_outcome(
                backend@,
                driver_name@,
                since_time@,
                now_millis,
            ),
        (driver_name@.len() > 0 && can_scan(backend@) && accepted_span(since_time@) is Some)
            ==> result is Ok,
        (driver_name@.len() == 0 || accepted_span(since_time@) is None) ==> (result matches Err(
            error,
        ) && error@.kind == ErrorKind::InvalidArgument),
        result matches Ok(reply) ==> reply.latency.wf(),
{
    let now_millis = wall_clock_millis();
    let start = stopwatch_start();
    let outcome = answer_max_speed_since(backend, driver_name, since_time, now_millis);
    let latency = stopwatch_elapsed(&start);
    match outcome {
        Ok(answer) => Ok(Reply { answer, latency }),
        Err(error) => Err(error),
    }
}

/// The first [`RECENT_LIMIT`] lines of a listing.
pub open spec fn capped(listing: Seq<DriverSpeedData>) -> Seq<DriverSpeedData> {
    if listing.len() > RECENT_LIMIT {
        listing.take(RECENT_LIMIT as int)
    } else {
        listing
    }
}

/// The reply to a listing of recent rows that an engine gave, or the error
/// that its failure is surfaced as. The listing is cut to
/// [`RECENT_LIMIT`] lines.
pub open spec fn recent_reply_of(
    outcome: Result<Seq<DriverSpeedData>, BackendFailure>,
    latency: Span,
) -> Result<ReplyData, QueryErrorData> {
    match outcome {
        Ok(listing) => Ok(ReplyData { answer: AnswerData::Recent(capped(listing)), latency }),
        Err(failure) => Err(backend_error(Operation::QueryRecent, failure)),
    }
}

/// The reply to a maximum speed that an engine gave under `operation`, or
/// the error that its failure is surfaced as.
pub open spec fn max_speed_reply_of(
    operation: Operation,
    outcome: Result<Option<i32>, BackendFailure>,
    latency: Span,
) -> Result<ReplyData, QueryErrorData> {
    match outcome {
        Ok(Some(speed)) => Ok(ReplyData { answer: AnswerData::MaxSpeed(speed as int), latency }),
        Ok(None) => Ok(ReplyData { answer: AnswerData::NoData, latency }),
        Err(failure) => Err(backend_error(operation, failure)),
    }
}

/// The content of a timed outcome.
pub open spec fn reply_view(result: Result<Reply, QueryError>) -> Result<
    ReplyData,
    QueryErrorData,
> {
    match result {
        Ok(reply) => Ok(reply@),
        Err(error) => Err(error@),
    }
}

/// Words what an engine gave for the listing of recent rows, after
/// `latency`.
pub fn recent_reply(outcome: Result<Vec<DriverSpeed>, BackendFailure>, latency: Span) -> (result:
    Result<Reply, QueryError>)
    ensures
        reply_view(result) == recent_reply_of(
            match outcome {
                Ok(listing) => Ok(listing_views(listing@)),
                Err(failure) => Err(failure),
            },
            latency,
        ),
{
    match outcome {
        Ok(listing) => {
            let mut listing = listing;
            let ghost given = listing_views(listing@);
            if listing.len() > RECENT_LIMIT {
                listing.truncate(RECENT_LIMIT);
                assert(listing_views(listing@) =~= given.take(RECENT_LIMIT as int));
            }
            Ok(Reply { answer: Answer::Recent(listing), latency })
        },
        Err(failure) => Err(QueryError::from_backend(Operation::QueryRecent, failure)),
    }
}

/// Words what an engine gave for a maximum speed under `operation`, after
/// `latency`: a speed, "no data", or the error for its failure.
pub fn max_speed_reply(
    operation: Operation,
    outcome: Result<Option<i32>, BackendFailure>,
    latency: Span,
) -> (result: Result<Reply, QueryError>)
    ensures
        reply_view(result) == max_speed_reply_of(operation, outcome, latency),
{
    match outcome {
        Ok(found) => Ok(Reply { answer: max_speed_answer(found), latency }),
        Err(failure) => Err(QueryError::from_backend(operation, failure)),
    }
}

/// On an engine that holds nothing, the maximum speed of any named driver
/// is "no data": not an error and not a speed.
pub proof fn empty_engine_answers_no_data(data: BackendData, driver: Seq<char>)
    requires
        data.rows.len() == 0,
        driver.len() > 0,
        can_scan(data),
    ensures
        max_speed_outcome(data, driver) == Ok::<AnswerData, QueryErrorData>(AnswerData::NoData),
{
}

/// Only a span longer than nothing is accepted: a text that stands for no
/// time at all, such as `0s`, is an invalid argument like a text that does
/// not read as a span. And nothing else is one: the question is refused as
/// an invalid argument exactly if the driver has no name or the span is
/// not accepted, whatever the engine holds and whatever the time is.
pub proof fn only_positive_spans_are_accepted(
    data: BackendData,
    driver: Seq<char>,
    since: Seq<char>,
    now_millis: i64,
)
    ensures
        accepted_span(since) matches Some(span) ==> span.wf() && span.is_positive(),
        positive_span(Some(Span { secs: 0, nanos: 0 })) is None,
        positive_span(None) is None,
        (driver.len() > 0 && accepted_span(since) is None) ==> max_speed_since_outcome(
            data,
            driver,
            since,
            now_millis,
        ) == Err::<AnswerData, QueryErrorData>(invalid_since()),
        (max_speed_since_outcome(data, driver, since, now_millis) matches Err(error) && error.kind
            == ErrorKind::InvalidArgument) <==> (driver.len() == 0 || accepted_span(since)
            is None),
        (driver.len() > 0 && accepted_span(since) is Some && can_scan(data))
            ==> max_speed_since_outcome(data, driver, since, now_millis) is Ok,
{
}

} // verus!
