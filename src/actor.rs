//! The object-oriented model: one actor per sensor keeps that sensor's
//! window and publishes its average every sampling interval; one actor per
//! motor keeps the latest average of each of its four sensors and applies
//! the rule once all four are present.
use vstd::prelude::*;

use crate::motor::{elapsed, max2, mean_of, windows_failure};
use crate::records::{slot_of, Alert, MotorFailure, SensorMessage};
use crate::rules::{reading_in_range, sensor_data_indicates_failure, sensor_failure_of};
use crate::window::{average_of, lemma_mean_in_range, live_of, readings_in_range, Sample, SlidingWindow};

verus! {

/// The average of one sensor's window, as sent to its motor's actor.
#[derive(Debug, Clone, Copy, PartialEq, Eq, Structural)]
pub struct SensorAverage {
    pub average: i64,
    pub number_of_values: u64,
    pub sensor_id: u32,
    pub timestamp: u64,
}

/// The actor of one sensor: its window, how often it publishes, and when it
/// last did.
pub struct Sensor {
    window: SlidingWindow,
    interval: u64,
    last_sent: u64,
}

/// What a sensor actor publishes for message `m` at `now` when its window,
/// after `m` was appended and the window cut to `now`, is `w`.
pub open spec fn published(w: Seq<Sample>, m: SensorMessage) -> Option<SensorAverage> {
    match average_of(w) {
        None => None,
        Some(a) => Some(
            SensorAverage {
                average: a.value,
                number_of_values: a.number_of_values,
                sensor_id: m.sensor_id,
                timestamp: m.timestamp,
            },
        ),
    }
}

impl Sensor {
    pub closed spec fn window_view(&self) -> Seq<Sample> {
        self.window@
    }

    pub closed spec fn size(&self) -> int {
        self.window.size()
    }

    pub closed spec fn interval_view(&self) -> int {
        self.interval as int
    }

    pub closed spec fn last_sent_view(&self) -> int {
        self.last_sent as int
    }

    pub closed spec fn wf(&self) -> bool {
        self.window.wf()
    }

    /// A sensor actor with an empty window of `window_size` ms that
    /// publishes every `interval` ms, counting from `now`.
    pub fn build(window_size: u64, interval: u64, now: u64) -> (r: Sensor)
        ensures
            r.wf(),
            r.window_view() == Seq::<Sample>::empty(),
            r.size() == window_size,
            r.interval_view() == interval,
            r.last_sent_view() == now,
    {
        Sensor { window: SlidingWindow::new(window_size), interval, last_sent: now }
    }

    /// Takes in a message at `now`. Once `interval` ms have passed since
    /// the last publication, the window is cut to what is live at `now` and
    /// its average is published (nothing when it is empty).
    pub fn handle_sensor_message(&mut self, message: SensorMessage, now: u64) -> (r: Option<SensorAverage>)
        requires
            old(self).wf(),
            reading_in_range(message.reading as int),
        ensures
            final(self).wf(),
            final(self).size() == old(self).size(),
            final(self).interval_view() == old(self).interval_view(),
            ({
                let pushed = old(self).window_view().push(Sample { timestamp: message.timestamp, reading: message.reading });
                if elapsed(now as int, old(self).last_sent_view()) >= old(self).interval_view() {
                    let w = live_of(pushed, old(self).size(), now as int);
                    &&& final(self).window_view() == w
                    &&& final(self).last_sent_view() == now
                    &&& r == published(w, message)
                } else {
                    &&& final(self).window_view() == pushed
                    &&& final(self).last_sent_view() == old(self).last_sent_view()
                    &&& r is None
                }
            }),
    {
        self.window.add(Sample { timestamp: message.timestamp, reading: message.reading });
        let waited = if now >= self.last_sent { now - self.last_sent } else { 0 };
        if waited >= self.interval {
            let average = self.window.average_at(now);
            self.last_sent = now;
            match average {
                None => None,
                Some(a) => Some(
                    SensorAverage {
                        average: a.value,
                        number_of_values: a.number_of_values,
                        sensor_id: message.sensor_id,
                        timestamp: message.timestamp,
                    },
                ),
            }
        } else {
            None
        }
    }
}

/// The actor of one motor: the latest average of each of its sensors, in
/// sensor-index order, and the instant of its last reset.
pub struct MotorMonitor {
    motor_id: u16,
    air_temperature: Option<SensorAverage>,
    process_temperature: Option<SensorAverage>,
    rotational_speed: Option<SensorAverage>,
    torque: Option<SensorAverage>,
    age: u64,
}

pub open spec fn slot_value_ok(s: Option<SensorAverage>) -> bool {
    match s {
        None => true,
        Some(a) => reading_in_range(a.average as int),
    }
}

pub open spec fn all_slots(s: Seq<Option<SensorAverage>>) -> bool {
    s[0] is Some && s[1] is Some && s[2] is Some && s[3] is Some
}

/// The rule applied to four present averages.
pub open spec fn slots_failure(s: Seq<Option<SensorAverage>>, age_ms: int) -> Option<MotorFailure> {
    sensor_failure_of(
        s[0].unwrap().average as int,
        s[1].unwrap().average as int,
        s[2].unwrap().average as int,
        s[3].unwrap().average as int,
        age_ms,
    )
}

/// The timestamp of the youngest of four present averages.
pub open spec fn slots_time(s: Seq<Option<SensorAverage>>) -> int {
    max2(
        max2(s[0].unwrap().timestamp as int, s[1].unwrap().timestamp as int),
        max2(s[2].unwrap().timestamp as int, s[3].unwrap().timestamp as int),
    )
}

impl MotorMonitor {
    pub open spec fn slots(&self) -> Seq<Option<SensorAverage>> {
        seq![self.slot_view(0), self.slot_view(1), self.slot_view(2), self.slot_view(3)]
    }

    pub closed spec fn slot_view(&self, i: int) -> Option<SensorAverage> {
        if i == 0 {
            self.air_temperature
        } else if i == 1 {
            self.process_temperature
        } else if i == 2 {
            self.rotational_speed
        } else {
            self.torque
        }
    }

    pub closed spec fn motor_id_view(&self) -> u16 {
        self.motor_id
    }

    pub closed spec fn age_view(&self) -> int {
        self.age as int
    }

    pub open spec fn wf(&self) -> bool {
        forall|i: int| 0 <= i < 4 ==> slot_value_ok(#[trigger] self.slots()[i])
    }

    /// The actor of motor `motor_id`, with no averages yet; its age clock
    /// starts at `now`.
    pub fn build(motor_id: u16, now: u64) -> (r: MotorMonitor)
        ensures
            r.wf(),
            r.slots() == seq![None::<SensorAverage>, None, None, None],
            r.motor_id_view() == motor_id,
            r.age_view() == now,
    {
        let r = MotorMonitor {
            motor_id,
            air_temperature: None,
            process_temperature: None,
            rotational_speed: None,
            torque: None,
            age: now,
        };
        assert(r.slots() =~= seq![None::<SensorAverage>, None, None, None]);
        r
    }

    /// Takes in an average at `now`: it replaces the slot of its sensor.
    /// Once all four slots hold an average the rule is applied with the time
    /// elapsed since the last reset; on a failure the slots are cleared, the
    /// age clock restarts at `now`, and the alert to send is returned.
    pub fn receive(&mut self, sensor_average: SensorAverage, now: u64) -> (r: Option<Alert>)
        requires
            old(self).wf(),
            reading_in_range(sensor_average.average as int),
        ensures
            final(self).wf(),
            final(self).motor_id_view() == old(self).motor_id_view(),
            ({
                let s = old(self).slots().update(slot_of(sensor_average.sensor_id), Some(sensor_average));
                let outcome = if all_slots(s) {
                    slots_failure(s, elapsed(now as int, old(self).age_view()))
                } else {
                    None
                };
                match outcome {
                    Some(f) => {
                        &&& r == Some(Alert { time: slots_time(s) as u64, motor_id: old(self).motor_id_view(), failure: f })
                        &&& final(self).slots() == seq![None::<SensorAverage>, None, None, None]
                        &&& final(self).age_view() == now
                    },
                    None => {
                        &&& r is None
                        &&& final(self).slots() == s
                        &&& final(self).age_view() == old(self).age_view()
                    },
                }
            }),
    {
        let ghost s = old(self).slots().update(slot_of(sensor_average.sensor_id), Some(sensor_average));
        let index = crate::records::get_sensor_id(sensor_average.sensor_id);
        if index == 0 {
            self.air_temperature = Some(sensor_average);
        } else if index == 1 {
            self.process_temperature = Some(sensor_average);
        } else if index == 2 {
            self.rotational_speed = Some(sensor_average);
        } else {
            self.torque = Some(sensor_average);
        }
        assert(self.slots() =~= s);
        assert(slot_value_ok(self.slots()[0]) && slot_value_ok(self.slots()[1]) && slot_value_ok(self.slots()[2])
            && slot_value_ok(self.slots()[3]));
        match (self.air_temperature, self.process_temperature, self.rotational_speed, self.torque) {
            (Some(a), Some(p), Some(v), Some(t)) => {
                let age = if now >= self.age { now - self.age } else { 0 };
                match sensor_data_indicates_failure(a.average, p.average, v.average, t.average, age) {
                    Some(failure) => {
                        let ab = if a.timestamp >= p.timestamp { a.timestamp } else { p.timestamp };
                        let vt = if v.timestamp >= t.timestamp { v.timestamp } else { t.timestamp };
                        let time = if ab >= vt { ab } else { vt };
                        self.air_temperature = None;
                        self.process_temperature = None;
                        self.rotational_speed = None;
                        self.torque = None;
                        self.age = now;
                        assert(self.slots() =~= seq![None::<SensorAverage>, None, None, None]);
                        Some(Alert { time, motor_id: self.motor_id, failure })
                    },
                    None => None,
                }
            },
            _ => None,
        }
    }
}

/// A sensor actor publishes the mean of its window.
pub proof fn lemma_published_mean(w: Seq<Sample>, m: SensorMessage)
    requires
        readings_in_range(w),
        w.len() > 0,
    ensures
        published(w, m) is Some,
        published(w, m).unwrap().average == mean_of(w),
{
    lemma_mean_in_range(w);
}

/// The models agree on equal data: a motor actor holding the averages that
/// its four sensor actors published from windows `w` reaches the verdict
/// that the client-server evaluation reaches on `w` itself.
pub proof fn lemma_actor_agrees_with_windows(
    w: Seq<Seq<Sample>>,
    messages: Seq<SensorMessage>,
    s: Seq<Option<SensorAverage>>,
    age_ms: int,
)
    requires
        w.len() == 4,
        messages.len() == 4,
        forall|j: int| 0 <= j < 4 ==> readings_in_range(#[trigger] w[j]) && w[j].len() > 0,
        forall|j: int| 0 <= j < 4 ==> #[trigger] s[j] == published(w[j], messages[j]),
    ensures
        all_slots(s),
        slots_failure(s, age_ms) == windows_failure(w, age_ms),
{
    assert(readings_in_range(w[0]) && w[0].len() > 0);
    assert(readings_in_range(w[1]) && w[1].len() > 0);
    assert(readings_in_range(w[2]) && w[2].len() > 0);
    assert(readings_in_range(w[3]) && w[3].len() > 0);
    assert(s[0] == published(w[0], messages[0]));
    assert(s[1] == published(w[1], messages[1]));
    assert(s[2] == published(w[2], messages[2]));
    assert(s[3] == published(w[3], messages[3]));
    lemma_published_mean(w[0], messages[0]);
    lemma_published_mean(w[1], messages[1]);
    lemma_published_mean(w[2], messages[2]);
    lemma_published_mean(w[3], messages[3]);
}

} // verus!
