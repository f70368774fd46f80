use rust_eze_racing::error::Operation;
use rust_eze_racing::statement::{relational_statement, statement, wide_column_statement};
use rust_eze_racing::table::BackendKind;

#[test]
fn relational_statements() {
    assert_eq!(
        statement(BackendKind::Relational, false, Operation::QueryRecent),
        "SELECT driver_name, top_speed FROM racing_cars ORDER BY last_updated DESC LIMIT 5"
    );
    assert_eq!(
        statement(BackendKind::Relational, true, Operation::QueryMaxSpeed),
        "SELECT max(top_speed) FROM racing_cars WHERE driver_name = $1"
    );
    assert_eq!(
        statement(BackendKind::Relational, false, Operation::QueryMaxSpeedSince),
        "SELECT max(top_speed) FROM racing_cars WHERE driver_name = $1 AND last_updated > $2"
    );
    assert_eq!(
        relational_statement(Operation::Insert),
        "INSERT INTO racing_cars (driver_name, top_speed, acceleration, handling, last_updated) VALUES ($1, $2, $3, $4, $5)"
    );
    assert_eq!(
        relational_statement(Operation::BatchInsert),
        relational_statement(Operation::Insert)
    );
}

#[test]
fn wide_column_reads_ask_for_leave_to_scan() {
    assert_eq!(
        statement(BackendKind::WideColumn, true, Operation::QueryMaxSpeed),
        "SELECT max(top_speed) FROM demo.racing_car_metrics WHERE driver_name = ? ALLOW FILTERING"
    );
    assert_eq!(
        statement(BackendKind::WideColumn, false, Operation::QueryMaxSpeed),
        "SELECT max(top_speed) FROM demo.racing_car_metrics WHERE driver_name = ?"
    );
    assert_eq!(
        statement(BackendKind::WideColumn, true, Operation::QueryMaxSpeedSince),
        "SELECT max(top_speed) FROM demo.racing_car_metrics WHERE driver_name = ? AND last_updated > ? ALLOW FILTERING"
    );
    assert_eq!(
        statement(BackendKind::WideColumn, true, Operation::QueryRecent),
        "SELECT driver_name, top_speed FROM demo.racing_car_metrics ORDER BY last_updated DESC LIMIT 5 ALLOW FILTERING"
    );
}

#[test]
fn wide_column_writes_need_no_leave() {
    let text = "INSERT INTO demo.racing_car_metrics (id, driver_name, top_speed, acceleration, handling, last_updated) VALUES (?, ?, ?, ?, ?, ?)";
    assert_eq!(statement(BackendKind::WideColumn, true, Operation::Insert), text);
    assert_eq!(statement(BackendKind::WideColumn, false, Operation::BatchInsert), text);
    assert_eq!(wide_column_statement(Operation::Insert), text);
}
