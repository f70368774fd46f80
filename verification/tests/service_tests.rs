use rust_eze_racing::backend::{Backend, DriverSpeed};
use rust_eze_racing::error::{BackendFailure, ErrorKind, Operation, QueryError};
use rust_eze_racing::record::TelemetryRecord;
use rust_eze_racing::service::{
    answer_max_speed, answer_max_speed_since, answer_recent, check_driver,
    drivers_by_last_updated, max_speed_answer, max_speed_for_driver,
    max_speed_for_driver_in_timeframe, max_speed_reply, recent_reply, window_start,
    window_statement, Answer, Reply,
};
use rust_eze_racing::span::Span;
use rust_eze_racing::table::BackendKind;

fn record(name: &str, speed: i32, stamp: i64) -> TelemetryRecord {
    TelemetryRecord {
        id: Some(stamp as u128),
        driver_name: name.to_string(),
        top_speed: speed,
        acceleration: 5,
        handling: 3,
        last_updated: Some(stamp),
    }
}

fn line(name: &str, speed: i32) -> DriverSpeed {
    DriverSpeed { driver_name: name.to_string(), top_speed: speed }
}

fn max_table(kind: BackendKind, allow_full_scan: bool) -> Backend {
    let mut backend = Backend::new(kind, allow_full_scan);
    assert!(backend.insert(record("Max", 120, 1_000)).is_ok());
    assert!(backend.insert(record("Max", 280, 2_000)).is_ok());
    assert!(backend.insert(record("Max", 90, 3_000)).is_ok());
    backend
}

fn now_millis() -> i64 {
    std::time::SystemTime::now()
        .duration_since(std::time::UNIX_EPOCH)
        .unwrap()
        .as_millis() as i64
}

#[test]
fn empty_driver_name_is_invalid() {
    let error = check_driver("").err().unwrap();
    assert_eq!(error.kind, ErrorKind::InvalidArgument);
    assert_eq!(error.message, "driver_name cannot be empty");
    assert_eq!(error.status(), 400);
    assert!(check_driver("Max").is_ok());
    assert!(check_driver(" ").is_ok());
}

#[test]
fn max_speed_on_an_empty_backend_is_no_data() {
    let backend = Backend::new(BackendKind::Relational, false);
    assert_eq!(answer_max_speed(&backend, "Max"), Ok(Answer::NoData));
    let reply = max_speed_for_driver(&backend, "Max").ok().unwrap();
    assert_eq!(reply.answer, Answer::NoData);
    assert_ne!(reply.answer, Answer::MaxSpeed(0));
    assert_eq!(reply.render(), "No data available");
}

#[test]
fn max_speed_scenario() {
    let backend = max_table(BackendKind::Relational, false);
    assert_eq!(answer_max_speed(&backend, "Max"), Ok(Answer::MaxSpeed(280)));
    // at 3.5 s the last 2 s hold the records of 2 s and 3 s
    assert_eq!(answer_max_speed_since(&backend, "Max", "2s", 3_500), Ok(Answer::MaxSpeed(280)));
    // the last 3 s hold all three: the answer is the same
    assert_eq!(answer_max_speed_since(&backend, "Max", "3s", 3_500), Ok(Answer::MaxSpeed(280)));
    // the last second holds the last record only
    assert_eq!(answer_max_speed_since(&backend, "Max", "1s", 3_500), Ok(Answer::MaxSpeed(90)));
    assert_eq!(answer_max_speed_since(&backend, "Max", "400ms", 3_500), Ok(Answer::NoData));
    assert_eq!(answer_max_speed_since(&backend, "Lewis", "1h", 3_500), Ok(Answer::NoData));
}

#[test]
fn zero_span_is_an_invalid_argument() {
    let backend = max_table(BackendKind::Relational, false);
    let error = answer_max_speed_since(&backend, "Max", "0s", 3_500).err().unwrap();
    assert_eq!(error.kind, ErrorKind::InvalidArgument);
    assert_eq!(error.status(), 400);
    let error = max_speed_for_driver_in_timeframe(&backend, "Max", "0s").err().unwrap();
    assert_eq!(error.kind, ErrorKind::InvalidArgument);
    assert_eq!(error.message, "Invalid since_time");
    let error = max_speed_for_driver_in_timeframe(&backend, "Max", "yesterday").err().unwrap();
    assert_eq!(error.kind, ErrorKind::InvalidArgument);
}

#[test]
fn driver_is_checked_before_the_span() {
    let backend = max_table(BackendKind::Relational, false);
    let error = answer_max_speed_since(&backend, "", "0s", 3_500).err().unwrap();
    assert_eq!(error.message, "driver_name cannot be empty");
    let error = max_speed_for_driver_in_timeframe(&backend, "", "1h").err().unwrap();
    assert_eq!(error.message, "driver_name cannot be empty");
}

#[test]
fn input_is_checked_before_the_engine_is_asked() {
    let backend = max_table(BackendKind::WideColumn, false);
    assert_eq!(answer_max_speed(&backend, "").err().unwrap().kind, ErrorKind::InvalidArgument);
    assert_eq!(
        answer_max_speed_since(&backend, "Max", "0s", 3_500).err().unwrap().kind,
        ErrorKind::InvalidArgument
    );
    assert_eq!(answer_max_speed(&backend, "Max").err().unwrap().kind, ErrorKind::QueryRejected);
    assert_eq!(
        answer_max_speed_since(&backend, "Max", "1s", 3_500).err().unwrap().kind,
        ErrorKind::QueryRejected
    );
    assert_eq!(answer_recent(&backend).err().unwrap().kind, ErrorKind::QueryRejected);
    assert_eq!(drivers_by_last_updated(&backend).err().unwrap().status(), 500);
}

#[test]
fn window_start_steps_back_from_now() {
    assert_eq!(window_start("2s", 3_500), Ok(Some(1_500)));
    assert_eq!(window_start("1h", 0), Ok(Some(-3_600_000)));
    assert_eq!(window_start("1500us", 10), Ok(Some(8)));
    assert_eq!(window_start("1h 30m 15s 500ms 250us 100ns", 10_000_000), Ok(Some(4_584_499)));
    assert!(window_start("0s", 3_500).is_err());
    assert!(window_start("", 3_500).is_err());
    let error = window_start("1h0", 3_500).err().unwrap();
    assert_eq!(error.kind, ErrorKind::InvalidArgument);
    assert_eq!(error.message, "Invalid since_time");
}

#[test]
fn window_that_reaches_past_every_timestamp_has_no_beginning() {
    assert_eq!(window_start("1s", i64::MIN), Ok(None));
    assert_eq!(window_start("18446744073709551615s", 0), Ok(None));
    assert_eq!(window_start("1ms", i64::MIN + 1), Ok(Some(i64::MIN)));
    assert_eq!(window_statement(None), Operation::QueryMaxSpeed);
    assert_eq!(window_statement(Some(5)), Operation::QueryMaxSpeedSince);
    let mut backend = Backend::new(BackendKind::Relational, false);
    assert!(backend.insert(record("Max", 120, 0)).is_ok());
    let mut oldest = record("Max", 280, 1);
    oldest.last_updated = Some(i64::MIN);
    assert!(backend.insert(oldest).is_ok());
    assert_eq!(backend.query_max_speed_since("Max", None), Ok(Some(280)));
    assert_eq!(backend.query_max_speed_since("Max", Some(i64::MIN)), Ok(Some(120)));
    assert_eq!(
        answer_max_speed_since(&backend, "Max", "18446744073709551615s", 1_000),
        Ok(Answer::MaxSpeed(280))
    );
    assert_eq!(
        answer_max_speed_since(&backend, "Max", "1h 30m 15s 500ms 250us 100ns", 5_415_500),
        Ok(Answer::MaxSpeed(120))
    );
    let scanless = Backend::new(BackendKind::WideColumn, false);
    let error = scanless.query_max_speed_since("Max", None).err().unwrap();
    assert_eq!(error.message, "query_max_speed_since: query rejected by the backend");
}

#[test]
fn timeframe_reads_the_wall_clock() {
    let mut backend = Backend::new(BackendKind::Relational, false);
    let now = now_millis();
    assert!(backend.insert(record("Max", 120, now - 7_200_000)).is_ok());
    assert!(backend.insert(record("Max", 280, now - 60_000)).is_ok());
    assert!(backend.insert(record("Lewis", 299, now - 60_000)).is_ok());
    let reply = max_speed_for_driver_in_timeframe(&backend, "Max", "1h").ok().unwrap();
    assert_eq!(reply.answer, Answer::MaxSpeed(280));
    let reply = max_speed_for_driver_in_timeframe(&backend, "Max", "1s").ok().unwrap();
    assert_eq!(reply.answer, Answer::NoData);
    let mut old = Backend::new(BackendKind::Relational, false);
    assert!(old.insert(record("Max", 120, now - 7_200_000)).is_ok());
    let reply = max_speed_for_driver_in_timeframe(&old, "Max", "1h").ok().unwrap();
    assert_eq!(reply.answer, Answer::NoData);
    let reply = max_speed_for_driver_in_timeframe(&old, "Max", "3h").ok().unwrap();
    assert_eq!(reply.answer, Answer::MaxSpeed(120));
}

#[test]
fn recent_drivers_are_listed_and_timed() {
    let backend = max_table(BackendKind::Relational, false);
    let reply = drivers_by_last_updated(&backend).ok().unwrap();
    assert_eq!(
        reply.answer,
        Answer::Recent(vec![line("Max", 90), line("Max", 280), line("Max", 120)])
    );
    assert!(reply.latency.nanos < 1_000_000_000);
    let text = reply.render();
    assert!(text.starts_with("Max: 90\nMax: 280\nMax: 120\n---\nQuery Time: "));
}

#[test]
fn reply_is_worded_with_the_footer() {
    let latency = Span { secs: 0, nanos: 250_000 };
    let reply = Reply { answer: Answer::MaxSpeed(280), latency };
    assert_eq!(reply.render(), "280\n---\nQuery Time: 250µs");
    let reply = Reply { answer: Answer::Recent(vec![line("Max", 280), line("Lewis", 90)]), latency };
    assert_eq!(reply.render(), "Max: 280\nLewis: 90\n---\nQuery Time: 250µs");
    let reply = Reply { answer: Answer::Recent(vec![]), latency };
    assert_eq!(reply.render(), "\n---\nQuery Time: 250µs");
    let reply = Reply { answer: Answer::NoData, latency };
    assert_eq!(reply.render(), "No data available");
    let reply = Reply { answer: Answer::MaxSpeed(0), latency: Span { secs: 1, nanos: 0 } };
    assert_eq!(reply.render(), "0\n---\nQuery Time: 1s");
}

#[test]
fn max_speed_handler_words_the_speed() {
    let backend = max_table(BackendKind::Relational, false);
    let reply = max_speed_for_driver(&backend, "Max").ok().unwrap();
    assert_eq!(reply.answer, Answer::MaxSpeed(280));
    assert!(reply.render().starts_with("280\n---\nQuery Time: "));
    let error = max_speed_for_driver(&backend, "").err().unwrap();
    assert_eq!(error.status(), 400);
}

#[test]
fn engine_answers_are_worded() {
    let latency = Span { secs: 0, nanos: 7 };
    assert_eq!(max_speed_answer(Some(0)), Answer::MaxSpeed(0));
    assert_eq!(max_speed_answer(None), Answer::NoData);
    assert_eq!(
        max_speed_reply(Operation::QueryMaxSpeed, Ok(Some(280)), latency),
        Ok(Reply { answer: Answer::MaxSpeed(280), latency })
    );
    assert_eq!(
        max_speed_reply(Operation::QueryMaxSpeedSince, Ok(None), latency),
        Ok(Reply { answer: Answer::NoData, latency })
    );
    let rows: Vec<DriverSpeed> = (0..7).map(|i| line("Max", 100 + i)).collect();
    let reply = recent_reply(Ok(rows.clone()), latency).ok().unwrap();
    assert_eq!(reply.answer, Answer::Recent(rows[..5].to_vec()));
    let reply = recent_reply(Ok(rows[..2].to_vec()), latency).ok().unwrap();
    assert_eq!(reply.answer, Answer::Recent(rows[..2].to_vec()));
}

#[test]
fn engine_failures_are_surfaced_by_kind() {
    let latency = Span { secs: 0, nanos: 7 };
    let error =
        max_speed_reply(Operation::QueryMaxSpeed, Err(BackendFailure::Unavailable), latency)
            .err()
            .unwrap();
    assert_eq!(error.kind, ErrorKind::BackendUnavailable);
    assert_eq!(error.message, "query_max_speed: backend unavailable");
    assert_eq!(error.status(), 500);
    assert!(error.kind.is_retryable());
    let error = recent_reply(Err(BackendFailure::Rejected), latency).err().unwrap();
    assert_eq!(error.kind, ErrorKind::QueryRejected);
    assert_eq!(error.message, "query_recent: query rejected by the backend");
    assert!(!error.kind.is_retryable());
    let error = QueryError::from_backend(Operation::BatchInsert, BackendFailure::Unavailable);
    assert_eq!(error.message, "batch_insert: backend unavailable");
    let error = QueryError::from_backend(Operation::Insert, BackendFailure::Rejected);
    assert_eq!(error.message, "insert: query rejected by the backend");
    assert_eq!(error.duplicate(), error);
    assert!(!ErrorKind::InvalidArgument.is_retryable());
    assert_eq!(ErrorKind::InvalidArgument.status(), 400);
    assert_eq!(ErrorKind::QueryRejected.status(), 500);
    assert_eq!(Operation::QueryMaxSpeedSince.name(), "query_max_speed_since");
}
