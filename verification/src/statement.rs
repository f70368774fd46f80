//! The statements that each kind of engine is sent for the five
//! capabilities.

use vstd::prelude::*;
use crate::error::Operation;
use crate::table::BackendKind;
use vstd::string::StringExecFns;

verus! {

/// The clause that asks the wide-column engine for leave to scan.
pub open spec fn scan_clause() -> Seq<char> {
    " ALLOW FILTERING"@
}

/// The statement of the relational engine for an operation.
pub open spec fn relational_text(operation: Operation) -> Seq<char> {
    match operation {
        Operation::Insert | Operation::BatchInsert =>
            "INSERT INTO racing_cars (driver_name, top_speed, acceleration, handling, last_updated) VALUES ($1, $2, $3, $4, $5)"@,
        Operation::QueryRecent =>
            "SELECT driver_name, top_speed FROM racing_cars ORDER BY last_updated DESC LIMIT 5"@,
        Operation::QueryMaxSpeed =>
            "SELECT max(top_speed) FROM racing_cars WHERE driver_name = $1"@,
        Operation::QueryMaxSpeedSince =>
            "SELECT max(top_speed) FROM racing_cars WHERE driver_name = $1 AND last_updated > $2"@,
    }
}

/// The statement of the wide-column engine for an operation, before any
/// leave to scan.
pub open spec fn wide_column_text(operation: Operation) -> Seq<char> {
    match operation {
        Operation::Insert | Operation::BatchInsert =>
            "INSERT INTO demo.racing_car_metrics (id, driver_name, top_speed, acceleration, handling, last_updated) VALUES (?, ?, ?, ?, ?, ?)"@,
        Operation::QueryRecent =>
            "SELECT driver_name, top_speed FROM demo.racing_car_metrics ORDER BY last_updated DESC LIMIT 5"@,
        Operation::QueryMaxSpeed =>
            "SELECT max(top_speed) FROM demo.racing_car_metrics WHERE driver_name = ?"@,
        Operation::QueryMaxSpeedSince =>
            "SELECT max(top_speed) FROM demo.racing_car_metrics WHERE driver_name = ? AND last_updated > ?"@,
    }
}

/// The operation reads by columns outside the key of the wide-column
/// engine.
pub open spec fn needs_scan(operation: Operation) -> bool {
    operation == Operation::QueryRecent || operation == Operation::QueryMaxSpeed || operation
        == Operation::QueryMaxSpeedSince
}

/// The statement that an engine is sent for an operation. Only a read of
/// the wide-column engine that was given leave to scan carries the clause
/// that asks for it; without the clause that engine rejects the read.
pub open spec fn statement_text(kind: BackendKind, allow_full_scan: bool, operation: Operation)
    -> Seq<char> {
    match kind {
        BackendKind::Relational => relational_text(operation),
        BackendKind::WideColumn => if allow_full_scan && needs_scan(operation) {
            wide_column_text(operation) + scan_clause()
        } else {
            wide_column_text(operation)
        },
    }
}

/// The statement of the relational engine for an operation.
pub fn relational_statement(operation: Operation) -> (text: &'static str)
    ensures
        text@ == relational_text(operation),
{
    match operation {
        Operation::Insert | Operation::BatchInsert =>
            "INSERT INTO racing_cars (driver_name, top_speed, acceleration, handling, last_updated) VALUES ($1, $2, $3, $4, $5)",
        Operation::QueryRecent =>
            "SELECT driver_name, top_speed FROM racing_cars ORDER BY last_updated DESC LIMIT 5",
        Operation::QueryMaxSpeed =>
            "SELECT max(top_speed) FROM racing_cars WHERE driver_name = $1",
        Operation::QueryMaxSpeedSince =>
            "SELECT max(top_speed) FROM racing_cars WHERE driver_name = $1 AND last_updated > $2",
    }
}

/// The statement of the wide-column engine for an operation, before any
/// leave to scan.
pub fn wide_column_statement(operation: Operation) -> (text: &'static str)
    ensures
        text@ == wide_column_text(operation),
{
    match operation {
        Operation::Insert | Operation::BatchInsert =>
            "INSERT INTO demo.racing_car_metrics (id, driver_name, top_speed, acceleration, handling, last_updated) VALUES (?, ?, ?, ?, ?, ?)",
        Operation::QueryRecent =>
            "SELECT driver_name, top_speed FROM demo.racing_car_metrics ORDER BY last_updated DESC LIMIT 5",
        Operation::QueryMaxSpeed =>
            "SELECT max(top_speed) FROM demo.racing_car_metrics WHERE driver_name = ?",
        Operation::QueryMaxSpeedSince =>
            "SELECT max(top_speed) FROM demo.racing_car_metrics WHERE driver_name = ? AND last_updated > ?",
    }
}

/// The statement that an engine is sent for an operation.
pub fn statement(kind: BackendKind, allow_full_scan: bool, operation: Operation) -> (text: String)
    ensures
        text@ == statement_text(kind, allow_full_scan, operation),
{
    match kind {
        BackendKind::Relational => relational_statement(operation).to_owned(),
        BackendKind::WideColumn => {
            let mut text = wide_column_statement(operation).to_owned();
            let reads = match operation {
                Operation::QueryRecent | Operation::QueryMaxSpeed | Operation::QueryMaxSpeedSince => true,
                _ => false,
            };
            if allow_full_scan && reads {
                text.append(" ALLOW FILTERING");
            }
            text
        },
    }
}

} // verus!
