//! The reader at the end of the streaming-SQL model. The pipeline joins the
//! four per-sensor windowed averages of a motor into rows of precomputed
//! quantities; the reader skips rows it has already seen and applies the
//! rule to the others.
use vstd::prelude::*;

use chrono::NaiveDateTime;

use crate::motor::elapsed;
use crate::records::{Alert, MotorFailure};
use crate::rules::{
    failure_of, power_of, reading_in_range, relevant_data_indicates_failure, sensor_failure_of, strain_from, strain_of,
};

verus! {

/// One row of a motor's joined averages: the start of its window (ms since
/// the Unix epoch), the motor, and the quantities that the join produced,
/// each absent when a sensor had no average for that window. The power is
/// in mW, the others in thousandths of their unit.
#[derive(Debug, Clone, Copy, PartialEq, Eq, Structural)]
pub struct MotorData {
    pub timestamp: u64,
    pub motor_id: u16,
    pub temperature_difference: Option<i64>,
    pub rotational_speed: Option<i64>,
    pub power: Option<i64>,
    pub torque: Option<i64>,
}

impl MotorData {
    pub open spec fn complete(&self) -> bool {
        &&& self.temperature_difference is Some
        &&& self.rotational_speed is Some
        &&& self.power is Some
        &&& self.torque is Some
    }

    /// Whether every quantity is present.
    pub fn is_some(&self) -> (r: bool)
        ensures
            r == self.complete(),
    {
        self.temperature_difference.is_some() && self.rotational_speed.is_some() && self.power.is_some()
            && self.torque.is_some()
    }
}

/// What chrono makes of `text` read in `format`: milliseconds since the
/// Unix epoch, the text taken as UTC, or none when it does not parse.
pub uninterp spec fn parsed_millis(text: Seq<char>, format: Seq<char>) -> Option<i64>;

/// Relies on chrono's `NaiveDateTime::parse_from_str`, then `and_utc` and
/// `timestamp_millis`: the result depends on the two strings alone.
#[verifier::external_body]
fn parse_millis(text: &str, format: &str) -> (r: Option<i64>)
    ensures
        r == parsed_millis(text@, format@),
{
    match NaiveDateTime::parse_from_str(text, format) {
        Ok(t) => Some(t.and_utc().timestamp_millis()),
        Err(_) => None,
    }
}

/// The instant of a parsed timestamp, or none before the Unix epoch.
pub fn timestamp_from_millis(millis: Option<i64>) -> (r: Option<u64>)
    ensures
        r == match millis {
            Some(m) => if m >= 0 { Some(m as u64) } else { None },
            None => None,
        },
{
    match millis {
        Some(m) => if m >= 0 { Some(m as u64) } else { None },
        None => None,
    }
}

/// How the engine writes a row's window start.
pub open spec fn row_time_format() -> Seq<char> {
    "%Y-%m-%d %H:%M:%S%.9f"@
}

/// The window start of a joined row, in ms since the Unix epoch, from the
/// text the engine writes for it.
pub fn row_timestamp(text: &str) -> (r: Option<u64>)
    ensures
        r == match parsed_millis(text@, row_time_format()) {
            Some(m) => if m >= 0 { Some(m as u64) } else { None },
            None => None,
        },
{
    timestamp_from_millis(parse_millis(text, "%Y-%m-%d %H:%M:%S%.9f"))
}

/// The failure that a complete row shows when the motor's age clock was
/// last reset at `age` and the row is read at `now`.
pub open spec fn row_failure(row: MotorData, age: int, now: int) -> Option<MotorFailure> {
    failure_of(
        row.temperature_difference.unwrap() as int,
        row.rotational_speed.unwrap() as int,
        row.power.unwrap() as int,
        strain_of(elapsed(now, age), row.torque.unwrap() as int),
    )
}

/// The reader of one motor's rows: the window start of the last row handled
/// and the instant of the motor's last reset.
pub struct RowReader {
    last_timestamp: Option<u64>,
    age: u64,
}

impl RowReader {
    pub closed spec fn last_timestamp_view(&self) -> Option<u64> {
        self.last_timestamp
    }

    pub closed spec fn age_view(&self) -> int {
        self.age as int
    }

    /// A reader that has seen no row; the age clock starts at `now`.
    pub fn new(now: u64) -> (r: RowReader)
        ensures
            r.last_timestamp_view() is None,
            r.age_view() == now,
    {
        RowReader { last_timestamp: None, age: now }
    }

    /// Handles a row read at `now`. A row with the same window start as the
    /// last one handled is a repeat and is skipped. Otherwise, when the row
    /// is complete the rule is applied with the strain of its torque over
    /// the time since the last reset; on a failure the alert to send is
    /// returned, stamped with the row's window start, and the age clock
    /// restarts at `now`.
    pub fn handle_row(&mut self, row: MotorData, now: u64) -> (r: Option<Alert>)
        requires
            row.torque is Some ==> reading_in_range(row.torque.unwrap() as int),
        ensures
            old(self).last_timestamp_view() == Some(row.timestamp) ==> r is None && *final(self) == *old(self),
            old(self).last_timestamp_view() != Some(row.timestamp) ==> {
                let outcome = if row.complete() {
                    row_failure(row, old(self).age_view(), now as int)
                } else {
                    None
                };
                &&& final(self).last_timestamp_view() == Some(row.timestamp)
                &&& match outcome {
                    Some(f) => r == Some(Alert { time: row.timestamp, motor_id: row.motor_id, failure: f })
                        && final(self).age_view() == now,
                    None => r is None && final(self).age_view() == old(self).age_view(),
                }
            },
    {
        if self.last_timestamp == Some(row.timestamp) {
            return None;
        }
        self.last_timestamp = Some(row.timestamp);
        match (row.temperature_difference, row.rotational_speed, row.power, row.torque) {
            (Some(difference), Some(speed), Some(power), Some(torque)) => {
                let age = if now >= self.age { now - self.age } else { 0 };
                let strain = strain_from(age, torque);
                match relevant_data_indicates_failure(difference, speed, power as i128, strain) {
                    Some(failure) => {
                        self.age = now;
                        Some(Alert { time: row.timestamp, motor_id: row.motor_id, failure })
                    },
                    None => None,
                }
            },
            _ => None,
        }
    }
}

/// The models agree on equal data: a complete row whose temperature
/// difference is `air - process` and whose power is the mechanical power of
/// its torque at its speed gets the verdict that the shared rule gives for
/// the four averages at the same age.
pub proof fn lemma_row_agrees_with_sensor_rule(
    row: MotorData,
    air_temperature: int,
    process_temperature: int,
    age: int,
    now: int,
)
    requires
        row.complete(),
        row.temperature_difference.unwrap() == air_temperature - process_temperature,
        row.power.unwrap() == power_of(row.torque.unwrap() as int, row.rotational_speed.unwrap() as int),
    ensures
        row_failure(row, age, now) == sensor_failure_of(
            air_temperature,
            process_temperature,
            row.rotational_speed.unwrap() as int,
            row.torque.unwrap() as int,
            elapsed(now, age),
        ),
{
}

} // verus!
