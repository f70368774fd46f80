//! The record generator: a driver from a fixed pool of names and three
//! metrics inside their ranges, drawn from random numbers.

use vstd::prelude::*;
use vstd::string::StringExecFns;
use crate::record::{
    RecordData, TelemetryRecord, ACCELERATION_MAX, ACCELERATION_MIN, HANDLING_MAX, HANDLING_MIN,
    TOP_SPEED_MAX, TOP_SPEED_MIN,
};

verus! {

/// Number of names in the pool.
pub const POOL_SIZE: usize = 8;

/// The name at a position of the pool.
pub open spec fn pool_name(position: int) -> Seq<char> {
    if position == 0 {
        "Max"@
    } else if position == 1 {
        "Lewis"@
    } else if position == 2 {
        "Charles"@
    } else if position == 3 {
        "Lando"@
    } else if position == 4 {
        "Carlos"@
    } else if position == 5 {
        "George"@
    } else if position == 6 {
        "Fernando"@
    } else {
        "Oscar"@
    }
}

/// The distance of a number from zero.
pub open spec fn magnitude(raw: int) -> int {
    if raw < 0 {
        -raw
    } else {
        raw
    }
}

/// A raw number folded into the range from `low` to `high`, both included.
pub open spec fn scaled(raw: int, low: int, high: int) -> int {
    low + magnitude(raw) % (high - low + 1)
}

/// The position of the pool that a raw number picks.
pub open spec fn picked(raw: int) -> int {
    magnitude(raw) % (POOL_SIZE as int)
}

/// The record that four raw numbers and an identifier make.
pub open spec fn sampled_record(
    id: u128,
    name_raw: i32,
    speed_raw: i32,
    acceleration_raw: i32,
    handling_raw: i32,
) -> RecordData {
    RecordData {
        id: Some(id),
        driver_name: pool_name(picked(name_raw as int)),
        top_speed: scaled(speed_raw as int, TOP_SPEED_MIN as int, TOP_SPEED_MAX as int),
        acceleration: scaled(
            acceleration_raw as int,
            ACCELERATION_MIN as int,
            ACCELERATION_MAX as int,
        ),
        handling: scaled(handling_raw as int, HANDLING_MIN as int, HANDLING_MAX as int),
        last_updated: None,
    }
}

/// The identifier has the shape of a random UUID: version 4, variant 1.
pub open spec fn is_random_uuid(id: u128) -> bool {
    id & 0x0000_0000_0000_f000_c000_0000_0000_0000u128
        == 0x0000_0000_0000_4000_8000_0000_0000_0000u128
}

/// Draws a number with `rand::random::<i32>`. Nothing is claimed of it.
#[verifier::external_body]
fn random_i32() -> i32 {
    rand::random::<i32>()
}

/// Draws an identifier with `uuid::Uuid::new_v4` and hands back its
/// `as_u128`. Trusted: the version and variant bits that every UUID of
/// version 4 carries.
#[verifier::external_body]
fn random_id() -> (id: u128)
    ensures
        is_random_uuid(id),
{
    uuid::Uuid::new_v4().as_u128()
}

/// Folds a raw number into the range from `low` to `high`, both included.
/// The sign of the raw number does not matter, and the lowest `i32`, which
/// has no positive twin, is folded like any other.
pub fn scale(raw: i32, low: i32, high: i32) -> (value: i32)
    requires
        low <= high,
    ensures
        value == scaled(raw as int, low as int, high as int),
        low <= value <= high,
{
    let width: i64 = (high as i64) - (low as i64) + 1;
    let distance: i64 = if raw < 0 {
        -(raw as i64)
    } else {
        raw as i64
    };
    ((low as i64) + distance % width) as i32
}

/// The name at a position of the pool.
pub fn name_at(position: usize) -> (name: &'static str)
    requires
        position < POOL_SIZE,
    ensures
        name@ == pool_name(position as int),
{
    if position == 0 {
        "Max"
    } else if position == 1 {
        "Lewis"
    } else if position == 2 {
        "Charles"
    } else if position == 3 {
        "Lando"
    } else if position == 4 {
        "Carlos"
    } else if position == 5 {
        "George"
    } else if position == 6 {
        "Fernando"
    } else {
        "Oscar"
    }
}

/// The name that a raw number picks from the pool.
pub fn pick_name(raw: i32) -> (name: &'static str)
    ensures
        name@ == pool_name(picked(raw as int)),
{
    let distance: i64 = if raw < 0 {
        -(raw as i64)
    } else {
        raw as i64
    };
    name_at((distance % (POOL_SIZE as i64)) as usize)
}

/// Makes the record that four raw numbers and an identifier stand for. Its
/// metrics lie inside their ranges whatever the numbers are, and it
/// carries no timestamp yet.
pub fn record_from(
    id: u128,
    name_raw: i32,
    speed_raw: i32,
    acceleration_raw: i32,
    handling_raw: i32,
) -> (record: TelemetryRecord)
    ensures
        record@ == sampled_record(id, name_raw, speed_raw, acceleration_raw, handling_raw),
        record@.in_range(),
{
    TelemetryRecord {
        id: Some(id),
        driver_name: String::from_str(pick_name(name_raw)),
        top_speed: scale(speed_raw, TOP_SPEED_MIN, TOP_SPEED_MAX),
        acceleration: scale(acceleration_raw, ACCELERATION_MIN, ACCELERATION_MAX),
        handling: scale(handling_raw, HANDLING_MIN, HANDLING_MAX),
        last_updated: None,
    }
}

/// Generates one record from fresh random numbers. Whatever is drawn, the
/// metrics lie inside their ranges, the name comes from the pool, the
/// identifier is a random UUID and the timestamp is left unset.
pub fn generate() -> (record: TelemetryRecord)
    ensures
        record@.in_range(),
        record@.last_updated is None,
        record@.id matches Some(id) && is_random_uuid(id),
        exists|position: int|
            0 <= position < POOL_SIZE && record@.driver_name == #[trigger] pool_name(position),
        exists|id: u128, name_raw: i32, speed_raw: i32, acceleration_raw: i32, handling_raw: i32|
            record@ == #[trigger] sampled_record(
                id,
                name_raw,
                speed_raw,
                acceleration_raw,
                handling_raw,
            ),
{
    let id = random_id();
    let name_raw = random_i32();
    let speed_raw = random_i32();
    let acceleration_raw = random_i32();
    let handling_raw = random_i32();
    let record = record_from(id, name_raw, speed_raw, acceleration_raw, handling_raw);
    assert(record@.driver_name == pool_name(picked(name_raw as int)));
    record
}

} // verus!
