use vstd::prelude::*;
use vstd::string::*;

use crate::text::{decimal, push_decimal, str_equals};

verus! {

/// The failures that the rule evaluator can report for a motor.
#[derive(Debug, Clone, Copy, PartialEq, Eq, Structural)]
pub enum MotorFailure {
    ToolWearFailure,
    HeatDissipationFailure,
    PowerFailure,
    OverstrainFailure,
    RandomFailure,
}

impl MotorFailure {
    pub open spec fn name(&self) -> Seq<char> {
        match self {
            MotorFailure::ToolWearFailure => "ToolWearFailure"@,
            MotorFailure::HeatDissipationFailure => "HeatDissipationFailure"@,
            MotorFailure::PowerFailure => "PowerFailure"@,
            MotorFailure::OverstrainFailure => "OverstrainFailure"@,
            MotorFailure::RandomFailure => "RandomFailure"@,
        }
    }

    /// The failure's name, as written in alert logs.
    pub fn to_string(&self) -> (r: String)
        ensures
            r@ == self.name(),
    {
        match self {
            MotorFailure::ToolWearFailure => String::from_str("ToolWearFailure"),
            MotorFailure::HeatDissipationFailure => String::from_str("HeatDissipationFailure"),
            MotorFailure::PowerFailure => String::from_str("PowerFailure"),
            MotorFailure::OverstrainFailure => String::from_str("OverstrainFailure"),
            MotorFailure::RandomFailure => String::from_str("RandomFailure"),
        }
    }

    /// The failure with the given name.
    pub fn from_str(s: &str) -> (r: Result<MotorFailure, ()>)
        ensures
            match r {
                Ok(f) => s@ == f.name(),
                Err(_) => forall|f: MotorFailure| s@ != #[trigger] f.name(),
            },
    {
        if str_equals(s, "ToolWearFailure") {
            Ok(MotorFailure::ToolWearFailure)
        } else if str_equals(s, "HeatDissipationFailure") {
            Ok(MotorFailure::HeatDissipationFailure)
        } else if str_equals(s, "PowerFailure") {
            Ok(MotorFailure::PowerFailure)
        } else if str_equals(s, "OverstrainFailure") {
            Ok(MotorFailure::OverstrainFailure)
        } else if str_equals(s, "RandomFailure") {
            Ok(MotorFailure::RandomFailure)
        } else {
            Err(())
        }
    }
}

/// The four interchangeable ways of processing requests.
#[derive(Debug, Clone, Copy, PartialEq, Eq, Structural)]
pub enum RequestProcessingModel {
    ReactiveStreaming,
    ClientServer,
    SpringQL,
    ObjectOriented,
}

impl RequestProcessingModel {
    pub open spec fn name(&self) -> Seq<char> {
        match self {
            RequestProcessingModel::ReactiveStreaming => "ReactiveStreaming"@,
            RequestProcessingModel::ClientServer => "ClientServer"@,
            RequestProcessingModel::SpringQL => "SpringQL"@,
            RequestProcessingModel::ObjectOriented => "ObjectOriented"@,
        }
    }

    /// The model with the given name.
    pub fn from_str(s: &str) -> (r: Result<RequestProcessingModel, ()>)
        ensures
            match r {
                Ok(m) => s@ == m.name(),
                Err(_) => forall|m: RequestProcessingModel| s@ != #[trigger] m.name(),
            },
    {
        if str_equals(s, "ReactiveStreaming") {
            Ok(RequestProcessingModel::ReactiveStreaming)
        } else if str_equals(s, "ClientServer") {
            Ok(RequestProcessingModel::ClientServer)
        } else if str_equals(s, "SpringQL") {
            Ok(RequestProcessingModel::SpringQL)
        } else if str_equals(s, "ObjectOriented") {
            Ok(RequestProcessingModel::ObjectOriented)
        } else {
            Err(())
        }
    }

    /// The model's name.
    pub fn to_string(&self) -> (r: String)
        ensures
            r@ == self.name(),
    {
        match self {
            RequestProcessingModel::ReactiveStreaming => String::from_str("ReactiveStreaming"),
            RequestProcessingModel::ClientServer => String::from_str("ClientServer"),
            RequestProcessingModel::SpringQL => String::from_str("SpringQL"),
            RequestProcessingModel::ObjectOriented => String::from_str("ObjectOriented"),
        }
    }
}

/// Which kind of process a benchmark record describes.
#[derive(Debug, Clone, Copy, PartialEq, Eq, Structural)]
pub enum BenchmarkDataType {
    Sensor,
    MotorMonitor,
}

/// The resource usage of one process over a run.
#[derive(Debug, Clone, Copy, PartialEq, Eq, Structural)]
pub struct BenchmarkData {
    pub id: u32,
    pub time_spent_in_user_mode: u64,
    pub time_spent_in_kernel_mode: u64,
    pub children_time_spent_in_user_mode: u64,
    pub children_time_spent_in_kernel_mode: u64,
    pub peak_resident_set_size: u64,
    pub peak_virtual_memory_size: u64,
    pub benchmark_data_type: BenchmarkDataType,
}

impl BenchmarkData {
    /// The record's counters, comma-separated, then a newline.
    pub open spec fn csv_line(&self) -> Seq<char> {
        decimal(self.id as nat) + seq![','] + decimal(self.time_spent_in_user_mode as nat) + seq![',']
            + decimal(self.time_spent_in_kernel_mode as nat) + seq![','] + decimal(
            self.children_time_spent_in_user_mode as nat,
        ) + seq![','] + decimal(self.children_time_spent_in_kernel_mode as nat) + seq![','] + decimal(
            self.peak_resident_set_size as nat,
        ) + seq![','] + decimal(self.peak_virtual_memory_size as nat) + seq!['\n']
    }

    pub fn to_csv_string(&self) -> (r: String)
        ensures
            r@ == self.csv_line(),
    {
        proof {
            reveal_strlit(",");
            reveal_strlit("\n");
        }
        let mut out = String::new();
        push_decimal(&mut out, self.id as u64);
        out.append(",");
        push_decimal(&mut out, self.time_spent_in_user_mode);
        out.append(",");
        push_decimal(&mut out, self.time_spent_in_kernel_mode);
        out.append(",");
        push_decimal(&mut out, self.children_time_spent_in_user_mode);
        out.append(",");
        push_decimal(&mut out, self.children_time_spent_in_kernel_mode);
        out.append(",");
        push_decimal(&mut out, self.peak_resident_set_size);
        out.append(",");
        push_decimal(&mut out, self.peak_virtual_memory_size);
        out.append("\n");
        assert(out@ =~= self.csv_line());
        out
    }
}

/// An alert raised for a motor. `time` is the timestamp, in milliseconds
/// since the Unix epoch, of the youngest sample that caused it.
#[derive(Debug, Clone, Copy, PartialEq, Eq, Structural)]
pub struct Alert {
    pub time: u64,
    pub motor_id: u16,
    pub failure: MotorFailure,
}

/// An alert as logged by the cloud collector, with the delay in ms between
/// its timestamp and its arrival.
#[derive(Debug, Clone, Copy, PartialEq, Eq, Structural)]
pub struct AlertWithDelay {
    pub time: u64,
    pub motor_id: u16,
    pub failure: MotorFailure,
    pub delay: u64,
}

impl Alert {
    /// The alert that a logged alert records.
    pub fn from_alert_with_delay(alert_with_delay: AlertWithDelay) -> (r: Alert)
        ensures
            r == (Alert {
                time: alert_with_delay.time,
                motor_id: alert_with_delay.motor_id,
                failure: alert_with_delay.failure,
            }),
    {
        Alert { time: alert_with_delay.time, motor_id: alert_with_delay.motor_id, failure: alert_with_delay.failure }
    }
}

/// One reading of a sensor as it arrives from the sensor's stream.
/// `sensor_id` is `motor_id * 4 + sensor_index`, the index naming air
/// temperature, process temperature, rotational speed and torque in that
/// order; `reading` is in thousandths of the sensor's unit and `timestamp`
/// in milliseconds since the Unix epoch.
#[derive(Debug, Clone, Copy, PartialEq, Eq, Structural)]
pub struct SensorMessage {
    pub reading: i64,
    pub sensor_id: u32,
    pub timestamp: u64,
}

/// Relies on std's `SystemTime::now` and `SystemTime::duration_since`: the
/// wall-clock time in milliseconds since the Unix epoch (zero for a clock set
/// before it). Nothing is promised of the value.
#[verifier::external_body]
pub fn get_now_duration() -> (r: u64) {
    match std::time::SystemTime::now().duration_since(std::time::UNIX_EPOCH) {
        Ok(d) => d.as_millis() as u64,
        Err(_) => 0,
    }
}

/// Milliseconds left at `now` until the end of a run that starts at
/// `start_time` and lasts `duration` ms; zero once it is over.
pub fn remaining_time(start_time: u64, duration: u64, now: u64) -> (r: u64)
    requires
        start_time + duration <= u64::MAX,
    ensures
        r == if start_time + duration > now { start_time + duration - now } else { 0 },
{
    let end = start_time + duration;
    if end > now {
        end - now
    } else {
        0
    }
}

/// Milliseconds left from the current time until the end of a run that
/// starts at `start_time` and lasts `duration` ms; zero once it is over.
pub fn get_duration_to_end(start_time: u64, duration: u64) -> (r: u64)
    requires
        start_time + duration <= u64::MAX,
    ensures
        r <= start_time + duration,
{
    remaining_time(start_time, duration, get_now_duration())
}

/// The motor that a sensor belongs to.
pub open spec fn motor_of(sensor_id: u32) -> int {
    sensor_id as int / 4
}

/// The position of a sensor within its motor's group of four.
pub open spec fn slot_of(sensor_id: u32) -> int {
    sensor_id as int % 4
}

/// The motor id of a sensor id, `sensor_id >> 2`.
pub fn get_motor_id(sensor_id: u32) -> (r: u32)
    ensures
        r == motor_of(sensor_id),
{
    let r = sensor_id >> 2;
    assert(sensor_id >> 2 == sensor_id / 4) by (bit_vector);
    r
}

/// The sensor's index within its motor, `sensor_id & 3`.
pub fn get_sensor_id(sensor_id: u32) -> (r: u32)
    ensures
        r == slot_of(sensor_id),
        r < 4,
{
    let r = sensor_id & 3;
    assert(sensor_id & 3 == sensor_id % 4) by (bit_vector);
    r
}

} // verus!
