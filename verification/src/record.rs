//! The telemetry record and the bounds of its three metrics.

use vstd::prelude::*;

verus! {

/// Lowest top speed a record may carry.
pub const TOP_SPEED_MIN: i32 = 50;

/// Highest top speed a record may carry.
pub const TOP_SPEED_MAX: i32 = 300;

/// Lowest acceleration score.
pub const ACCELERATION_MIN: i32 = 1;

/// Highest acceleration score.
pub const ACCELERATION_MAX: i32 = 10;

/// Lowest handling score.
pub const HANDLING_MIN: i32 = 1;

/// Highest handling score.
pub const HANDLING_MAX: i32 = 5;

/// One telemetry sample of a driver.
///
/// `id` and `last_updated` are unset until the record is persisted: the
/// storage engine needs the first and stamps the second (milliseconds since
/// the Unix epoch).
#[derive(Clone, Debug, PartialEq, Eq)]
pub struct TelemetryRecord {
    pub id: Option<u128>,
    pub driver_name: String,
    pub top_speed: i32,
    pub acceleration: i32,
    pub handling: i32,
    pub last_updated: Option<i64>,
}

/// Mathematical content of a [`TelemetryRecord`].
pub ghost struct RecordData {
    pub id: Option<u128>,
    pub driver_name: Seq<char>,
    pub top_speed: int,
    pub acceleration: int,
    pub handling: int,
    pub last_updated: Option<i64>,
}

impl RecordData {
    /// The three metrics lie inside their ranges.
    pub open spec fn in_range(self) -> bool {
        &&& TOP_SPEED_MIN <= self.top_speed <= TOP_SPEED_MAX
        &&& ACCELERATION_MIN <= self.acceleration <= ACCELERATION_MAX
        &&& HANDLING_MIN <= self.handling <= HANDLING_MAX
    }
}

impl View for TelemetryRecord {
    type V = RecordData;

    open spec fn view(&self) -> RecordData {
        RecordData {
            id: self.id,
            driver_name: self.driver_name@,
            top_speed: self.top_speed as int,
            acceleration: self.acceleration as int,
            handling: self.handling as int,
            last_updated: self.last_updated,
        }
    }
}

impl TelemetryRecord {
    /// Tells whether the three metrics lie inside their ranges.
    pub fn is_in_range(&self) -> (ok: bool)
        ensures
            ok == self@.in_range(),
    {
        TOP_SPEED_MIN <= self.top_speed && self.top_speed <= TOP_SPEED_MAX
            && ACCELERATION_MIN <= self.acceleration && self.acceleration <= ACCELERATION_MAX
            && HANDLING_MIN <= self.handling && self.handling <= HANDLING_MAX
    }

    /// A second record with the same content.
    pub fn duplicate(&self) -> (copy: TelemetryRecord)
        ensures
            copy@ == self@,
    {
        TelemetryRecord {
            id: self.id,
            driver_name: self.driver_name.clone(),
            top_speed: self.top_speed,
            acceleration: self.acceleration,
            handling: self.handling,
            last_updated: self.last_updated,
        }
    }
}

} // verus!
