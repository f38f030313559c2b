//! Per-motor state of the client-server model: four sensor windows and the
//! instant of the last reset, fed one message at a time by one consumer.
use vstd::prelude::*;

use crate::records::{get_motor_id, get_sensor_id, motor_of, slot_of, Alert, MotorFailure, SensorMessage};
use crate::rules::{reading_in_range, sensor_data_indicates_failure, sensor_failure_of, strain_of, STRAIN_LIMIT};
use crate::window::{latest_of, lemma_latest_bounds, lemma_mean_in_range, live_of, sum_of, Sample, SlidingWindow};

verus! {

/// The mean of a non-empty window, rounded down.
pub open spec fn mean_of(s: Seq<Sample>) -> int {
    sum_of(s) / (s.len() as int)
}

/// Milliseconds from `since` to `now`, or zero when `now` comes first.
pub open spec fn elapsed(now: int, since: int) -> int {
    if now >= since { now - since } else { 0 }
}

pub open spec fn all_present(w: Seq<Seq<Sample>>) -> bool {
    w[0].len() > 0 && w[1].len() > 0 && w[2].len() > 0 && w[3].len() > 0
}

/// The rule applied to four windows and the age of the motor's state.
pub open spec fn windows_failure(w: Seq<Seq<Sample>>, age_ms: int) -> Option<MotorFailure> {
    sensor_failure_of(mean_of(w[0]), mean_of(w[1]), mean_of(w[2]), mean_of(w[3]), age_ms)
}

pub open spec fn max2(a: int, b: int) -> int {
    if a >= b { a } else { b }
}

/// The timestamp of the youngest sample over four windows.
pub open spec fn youngest_of(w: Seq<Seq<Sample>>) -> int {
    max2(max2(latest_of(w[0]), latest_of(w[1])), max2(latest_of(w[2]), latest_of(w[3])))
}

pub open spec fn sample_of(m: SensorMessage) -> Sample {
    Sample { timestamp: m.timestamp, reading: m.reading }
}

/// The four windows after `m` was appended to its sensor's window and every
/// window was cut to what is live at `m`'s timestamp.
pub open spec fn stepped_windows(w: Seq<Seq<Sample>>, size: int, m: SensorMessage) -> Seq<Seq<Sample>> {
    Seq::new(
        4,
        |i: int|
            live_of(
                if i == slot_of(m.sensor_id) { w[i].push(sample_of(m)) } else { w[i] },
                size,
                m.timestamp as int,
            ),
    )
}

/// The failure found for a motor when `m` arrives at wall-clock `now`, given
/// its windows, window size and the instant `age` of its last reset.
pub open spec fn motor_outcome(
    w: Seq<Seq<Sample>>,
    size: int,
    age: int,
    m: SensorMessage,
    now: int,
) -> Option<MotorFailure> {
    let next = stepped_windows(w, size, m);
    if all_present(next) {
        windows_failure(next, elapsed(now, age))
    } else {
        None
    }
}

/// The alert for motor `m` from four windows, given the instant `age` of
/// its last reset and the evaluation instant `now`: none unless each window
/// holds a sample; otherwise the rule's verdict on the four means, stamped
/// with the youngest sample's timestamp.
pub open spec fn windows_alert(w: Seq<Seq<Sample>>, m: int, age: int, now: int) -> Option<Alert> {
    if all_present(w) {
        match windows_failure(w, elapsed(now, age)) {
            Some(f) => Some(Alert { time: youngest_of(w) as u64, motor_id: m as u16, failure: f }),
            None => None,
        }
    } else {
        None
    }
}

/// The windows of the four sensors of one motor and the instant of the
/// motor's last reset.
pub struct MotorGroupSensorsBuffers {
    air_temperature_sensor: SlidingWindow,
    process_temperature_sensor: SlidingWindow,
    rotational_speed_sensor: SlidingWindow,
    torque_sensor: SlidingWindow,
    age: u64,
}

impl MotorGroupSensorsBuffers {
    /// The four windows, in sensor-index order.
    pub open spec fn windows(&self) -> Seq<Seq<Sample>> {
        seq![
            self.air_temperature_sensor_view(),
            self.process_temperature_sensor_view(),
            self.rotational_speed_sensor_view(),
            self.torque_sensor_view(),
        ]
    }

    pub closed spec fn air_temperature_sensor_view(&self) -> Seq<Sample> {
        self.air_temperature_sensor@
    }

    pub closed spec fn process_temperature_sensor_view(&self) -> Seq<Sample> {
        self.process_temperature_sensor@
    }

    pub closed spec fn rotational_speed_sensor_view(&self) -> Seq<Sample> {
        self.rotational_speed_sensor@
    }

    pub closed spec fn torque_sensor_view(&self) -> Seq<Sample> {
        self.torque_sensor@
    }

    /// The window size shared by the four windows, in milliseconds.
    pub closed spec fn size(&self) -> int {
        self.air_temperature_sensor.size()
    }

    /// The instant of the last reset, in milliseconds since the Unix epoch.
    pub closed spec fn age_view(&self) -> int {
        self.age as int
    }

    pub closed spec fn wf(&self) -> bool {
        &&& self.air_temperature_sensor.wf()
        &&& self.process_temperature_sensor.wf()
        &&& self.rotational_speed_sensor.wf()
        &&& self.torque_sensor.wf()
        &&& self.process_temperature_sensor.size() == self.size()
        &&& self.rotational_speed_sensor.size() == self.size()
        &&& self.torque_sensor.size() == self.size()
    }

    /// Four empty windows of `window_size` milliseconds; the age clock
    /// starts at `now`.
    pub fn new(window_size: u64, now: u64) -> (r: MotorGroupSensorsBuffers)
        ensures
            r.wf(),
            r.windows() == seq![Seq::<Sample>::empty(), Seq::empty(), Seq::empty(), Seq::empty()],
            r.size() == window_size,
            r.age_view() == now,
    {
        MotorGroupSensorsBuffers {
            air_temperature_sensor: SlidingWindow::new(window_size),
            process_temperature_sensor: SlidingWindow::new(window_size),
            rotational_speed_sensor: SlidingWindow::new(window_size),
            torque_sensor: SlidingWindow::new(window_size),
            age: now,
        }
    }

    pub fn age(&self) -> (r: u64)
        ensures
            r == self.age_view(),
    {
        self.age
    }

    /// Appends a sample to the window of sensor `index`.
    pub fn add(&mut self, index: u32, sample: Sample)
        requires
            old(self).wf(),
            index < 4,
            reading_in_range(sample.reading as int),
        ensures
            final(self).wf(),
            final(self).windows() == old(self).windows().update(
                index as int,
                old(self).windows()[index as int].push(sample),
            ),
            final(self).size() == old(self).size(),
            final(self).age_view() == old(self).age_view(),
    {
        if index == 0 {
            self.air_temperature_sensor.add(sample);
        } else if index == 1 {
            self.process_temperature_sensor.add(sample);
        } else if index == 2 {
            self.rotational_speed_sensor.add(sample);
        } else {
            self.torque_sensor.add(sample);
        }
        assert(self.windows() =~= old(self).windows().update(
            index as int,
            old(self).windows()[index as int].push(sample),
        ));
    }

    /// Evicts from every window what is older than `now - window_size`.
    pub fn refresh_caches(&mut self, now: u64)
        requires
            old(self).wf(),
        ensures
            final(self).wf(),
            final(self).windows() == Seq::new(4, |i: int| live_of(old(self).windows()[i], old(self).size(), now as int)),
            final(self).size() == old(self).size(),
            final(self).age_view() == old(self).age_view(),
    {
        self.air_temperature_sensor.refresh_cache(now);
        self.process_temperature_sensor.refresh_cache(now);
        self.rotational_speed_sensor.refresh_cache(now);
        self.torque_sensor.refresh_cache(now);
        assert(self.windows() =~= Seq::new(4, |i: int| live_of(old(self).windows()[i], old(self).size(), now as int)));
    }

    /// Empties the four windows and restarts the age clock at `now`.
    pub fn reset(&mut self, now: u64)
        requires
            old(self).wf(),
        ensures
            final(self).wf(),
            final(self).windows() == seq![Seq::<Sample>::empty(), Seq::empty(), Seq::empty(), Seq::empty()],
            final(self).size() == old(self).size(),
            final(self).age_view() == now,
    {
        self.air_temperature_sensor.reset();
        self.process_temperature_sensor.reset();
        self.rotational_speed_sensor.reset();
        self.torque_sensor.reset();
        self.age = now;
        assert(self.windows() =~= seq![Seq::<Sample>::empty(), Seq::empty(), Seq::empty(), Seq::empty()]);
    }

    /// The rule applied to the four window averages and the time elapsed
    /// from the last reset to `now`.
    fn evaluate(&self, now: u64) -> (r: Option<MotorFailure>)
        requires
            self.wf(),
            all_present(self.windows()),
        ensures
            r == windows_failure(self.windows(), elapsed(now as int, self.age_view())),
    {
        let a = self.air_temperature_sensor.get_window_average().unwrap().value;
        let b = self.process_temperature_sensor.get_window_average().unwrap().value;
        let c = self.rotational_speed_sensor.get_window_average().unwrap().value;
        let d = self.torque_sensor.get_window_average().unwrap().value;
        proof {
            lemma_mean_in_range(self.air_temperature_sensor@);
            lemma_mean_in_range(self.process_temperature_sensor@);
            lemma_mean_in_range(self.rotational_speed_sensor@);
            lemma_mean_in_range(self.torque_sensor@);
        }
        let age = if now >= self.age { now - self.age } else { 0 };
        sensor_data_indicates_failure(a, b, c, d, age)
    }

    /// Whether each of the four windows holds a sample.
    pub fn is_some(&self) -> (r: bool)
        ensures
            r == all_present(self.windows()),
    {
        self.air_temperature_sensor.len() > 0 && self.process_temperature_sensor.len() > 0
            && self.rotational_speed_sensor.len() > 0 && self.torque_sensor.len() > 0
    }

    /// The timestamp of the youngest sample held, over the windows that
    /// hold any.
    pub fn get_time(&self) -> (r: u64)
        requires
            self.wf(),
            self.windows()[0].len() > 0 || self.windows()[1].len() > 0 || self.windows()[2].len() > 0
                || self.windows()[3].len() > 0,
        ensures
            r == youngest_of(self.windows()),
            exists|j: int|
                0 <= j < 4 && self.windows()[j].len() > 0 && r == latest_of(#[trigger] self.windows()[j]),
            forall|j: int, i: int|
                0 <= j < 4 && 0 <= i < self.windows()[j].len() ==> #[trigger] self.windows()[j][i].timestamp <= r,
    {
        let a = match self.air_temperature_sensor.get_window_average() {
            Some(x) => x.timestamp,
            None => 0,
        };
        let b = match self.process_temperature_sensor.get_window_average() {
            Some(x) => x.timestamp,
            None => 0,
        };
        let c = match self.rotational_speed_sensor.get_window_average() {
            Some(x) => x.timestamp,
            None => 0,
        };
        let d = match self.torque_sensor.get_window_average() {
            Some(x) => x.timestamp,
            None => 0,
        };
        proof {
            lemma_latest_bounds(self.air_temperature_sensor@);
            lemma_latest_bounds(self.process_temperature_sensor@);
            lemma_latest_bounds(self.rotational_speed_sensor@);
            lemma_latest_bounds(self.torque_sensor@);
        }
        let ab = if a >= b { a } else { b };
        let cd = if c >= d { c } else { d };
        let r = if ab >= cd { ab } else { cd };
        proof {
            let w = self.windows();
            assert(w[0] == self.air_temperature_sensor@);
            assert(w[1] == self.process_temperature_sensor@);
            assert(w[2] == self.rotational_speed_sensor@);
            assert(w[3] == self.torque_sensor@);
            assert forall|j: int, i: int| 0 <= j < 4 && 0 <= i < w[j].len() implies #[trigger] w[j][i].timestamp <= r by {
                assert(w[j][i].timestamp <= latest_of(w[j]));
            }
            if r == a && w[0].len() > 0 {
                assert(w[0].len() > 0 && r == latest_of(w[0]));
            } else if r == b && w[1].len() > 0 {
                assert(w[1].len() > 0 && r == latest_of(w[1]));
            } else if r == c && w[2].len() > 0 {
                assert(w[2].len() > 0 && r == latest_of(w[2]));
            } else if r == d && w[3].len() > 0 {
                assert(w[3].len() > 0 && r == latest_of(w[3]));
            } else {
                // r came from an empty window, so it is zero and bounds every non-empty window
                let j = if w[0].len() > 0 { 0int } else if w[1].len() > 0 { 1int } else if w[2].len() > 0 { 2int } else { 3int };
                let k = choose|k: int| 0 <= k < w[j].len() && w[j][k].timestamp == latest_of(w[j]);
                assert(w[j][k].timestamp <= r);
                assert(latest_of(w[j]) == r);
            }
        }
        r
    }
}

/// The rule applied to the four window averages of a motor and the time
/// elapsed from the motor's last reset to `now`.
pub fn violated_rule(motor_group_buffers: &MotorGroupSensorsBuffers, now: u64) -> (r: Option<MotorFailure>)
    requires
        motor_group_buffers.wf(),
        all_present(motor_group_buffers.windows()),
    ensures
        r == windows_failure(motor_group_buffers.windows(), elapsed(now as int, motor_group_buffers.age_view())),
{
    motor_group_buffers.evaluate(now)
}

/// The state that the single consumer of the client-server model owns: the
/// buffers of every motor, indexed by motor id.
pub struct ClientServerMonitor {
    motors: Vec<MotorGroupSensorsBuffers>,
}

impl ClientServerMonitor {
    /// The buffers of motor `i`.
    pub closed spec fn motor(&self, i: int) -> MotorGroupSensorsBuffers {
        self.motors@[i]
    }

    pub closed spec fn number_of_motors(&self) -> int {
        self.motors@.len() as int
    }

    pub closed spec fn wf(&self) -> bool {
        &&& self.motors@.len() <= 0x1_0000
        &&& forall|i: int| 0 <= i < self.motors@.len() ==> (#[trigger] self.motors@[i]).wf()
    }

    /// State for `number_of_motors` motors with windows of `window_size`
    /// milliseconds, whose age clocks start at `now`.
    pub fn new(number_of_motors: u16, window_size: u64, now: u64) -> (r: ClientServerMonitor)
        ensures
            r.wf(),
            r.number_of_motors() == number_of_motors,
            forall|i: int|
                0 <= i < number_of_motors ==> (#[trigger] r.motor(i)).windows() == seq![
                    Seq::<Sample>::empty(),
                    Seq::empty(),
                    Seq::empty(),
                    Seq::empty(),
                ] && r.motor(i).size() == window_size && r.motor(i).age_view() == now,
    {
        let mut motors: Vec<MotorGroupSensorsBuffers> = Vec::new();
        let mut i: u16 = 0;
        while i < number_of_motors
            invariant
                0 <= i <= number_of_motors,
                motors@.len() == i,
                forall|k: int|
                    0 <= k < i ==> (#[trigger] motors@[k]).wf() && motors@[k].windows() == seq![
                        Seq::<Sample>::empty(),
                        Seq::empty(),
                        Seq::empty(),
                        Seq::empty(),
                    ] && motors@[k].size() == window_size && motors@[k].age_view() == now,
            decreases number_of_motors - i,
        {
            motors.push(MotorGroupSensorsBuffers::new(window_size, now));
            i += 1;
        }
        ClientServerMonitor { motors }
    }

    /// Handles one message at wall-clock instant `now`: the message goes to
    /// its sensor's window, every window of its motor is cut to what is live
    /// at the message's timestamp, and once all four windows hold a sample
    /// the rule is evaluated. On a failure the motor's windows are emptied,
    /// its age clock restarts at `now`, and the alert to send is returned.
    /// A message of an unknown motor changes nothing and is refused.
    pub fn handle_message(&mut self, message: SensorMessage, now: u64) -> (r: Result<Option<Alert>, ()>)
        requires
            old(self).wf(),
            reading_in_range(message.reading as int),
        ensures
            final(self).wf(),
            final(self).number_of_motors() == old(self).number_of_motors(),
            motor_of(message.sensor_id) >= old(self).number_of_motors() ==> r is Err && *final(self) == *old(self),
            motor_of(message.sensor_id) < old(self).number_of_motors() ==> {
                let m = motor_of(message.sensor_id);
                let before = old(self).motor(m);
                let next = stepped_windows(before.windows(), before.size(), message);
                let outcome = motor_outcome(before.windows(), before.size(), before.age_view(), message, now as int);
                &&& r is Ok
                &&& forall|i: int| 0 <= i < old(self).number_of_motors() && i != m ==> #[trigger] final(self).motor(i) == old(self).motor(i)
                &&& final(self).motor(m).size() == before.size()
                &&& match outcome {
                    Some(f) => {
                        &&& r == Ok::<Option<Alert>, ()>(Some(Alert { time: youngest_of(next) as u64, motor_id: m as u16, failure: f }))
                        &&& final(self).motor(m).windows() == seq![Seq::<Sample>::empty(), Seq::empty(), Seq::empty(), Seq::empty()]
                        &&& final(self).motor(m).age_view() == now
                    },
                    None => {
                        &&& r == Ok::<Option<Alert>, ()>(None)
                        &&& final(self).motor(m).windows() == next
                        &&& final(self).motor(m).age_view() == before.age_view()
                    },
                }
            },
    {
        let motor_id = get_motor_id(message.sensor_id);
        let index = get_sensor_id(message.sensor_id);
        if motor_id as usize >= self.motors.len() {
            return Err(());
        }
        let ghost m = motor_id as int;
        let ghost before = self.motors@[m];
        let mut buffers = self.motors.remove(motor_id as usize);
        assert(before.wf());
        buffers.add(index, Sample { timestamp: message.timestamp, reading: message.reading });
        buffers.refresh_caches(message.timestamp);
        assert(buffers.windows() =~= stepped_windows(before.windows(), before.size(), message));
        let mut alert: Option<Alert> = None;
        if buffers.is_some() {
            if let Some(failure) = violated_rule(&buffers, now) {
                let time = buffers.get_time();
                alert = Some(Alert { time, motor_id: motor_id as u16, failure });
                buffers.reset(now);
            }
        }
        self.motors.insert(motor_id as usize, buffers);
        proof {
            assert forall|i: int| 0 <= i < self.motors@.len() implies (#[trigger] self.motors@[i]).wf() by {
                if i != m {
                    assert(self.motors@[i] == old(self).motors@[i]);
                }
            }
            assert forall|i: int| 0 <= i < old(self).number_of_motors() && i != m implies #[trigger] self.motor(i) == old(self).motor(i) by {
                assert(self.motors@[i] == old(self).motors@[i]);
            }
        }
        Ok(alert)
    }
}

/// The alert that the client-server consumer sends for a message is the
/// one that `windows_alert` gives for the motor's windows once the message
/// is in.
pub proof fn lemma_client_server_alert(w: Seq<Seq<Sample>>, size: int, age: int, m: SensorMessage, now: int)
    ensures
        match motor_outcome(w, size, age, m, now) {
            Some(f) => windows_alert(stepped_windows(w, size, m), motor_of(m.sensor_id), age, now) == Some(
                Alert {
                    time: youngest_of(stepped_windows(w, size, m)) as u64,
                    motor_id: motor_of(m.sensor_id) as u16,
                    failure: f,
                },
            ),
            None => windows_alert(stepped_windows(w, size, m), motor_of(m.sensor_id), age, now) is None,
        },
{
}

/// An overstrain failure at `now` means that the torque has been held long
/// enough since the motor's last reset: the time elapsed since `age`, in
/// milliseconds, times the averaged torque, in thousandths, exceeds the
/// strain limit.
pub proof fn lemma_overstrain_needs_age(w: Seq<Seq<Sample>>, size: int, age: int, m: SensorMessage, now: int)
    ensures
        motor_outcome(w, size, age, m, now) == Some(MotorFailure::OverstrainFailure) ==> elapsed(now, age)
            * mean_of(stepped_windows(w, size, m)[3]) > STRAIN_LIMIT * 1000,
{
    let next = stepped_windows(w, size, m);
    let x = elapsed(now, age) * mean_of(next[3]);
    if motor_outcome(w, size, age, m, now) == Some(MotorFailure::OverstrainFailure) {
        assert(strain_of(elapsed(now, age), mean_of(next[3])) > STRAIN_LIMIT);
        assert(x / 1000 > STRAIN_LIMIT ==> x > STRAIN_LIMIT * 1000) by (nonlinear_arith);
    }
}

/// While the time elapsed since the motor's last reset, times its averaged
/// torque, stays at or below the strain limit, no overstrain alert fires.
pub proof fn lemma_no_overstrain_before_limit(w: Seq<Seq<Sample>>, size: int, age: int, m: SensorMessage, now: int)
    requires
        elapsed(now, age) * mean_of(stepped_windows(w, size, m)[3]) <= STRAIN_LIMIT * 1000,
    ensures
        motor_outcome(w, size, age, m, now) != Some(MotorFailure::OverstrainFailure),
{
    lemma_overstrain_needs_age(w, size, age, m, now);
}

/// Every sample of `s` reads `c`.
pub open spec fn constant_readings(s: Seq<Sample>, c: int) -> bool {
    forall|i: int| 0 <= i < s.len() ==> (#[trigger] s[i]).reading == c
}

pub proof fn lemma_mean_of_constant(s: Seq<Sample>, c: int)
    requires
        constant_readings(s, c),
        s.len() > 0,
    ensures
        mean_of(s) == c,
{
    lemma_sum_of_constant(s, c);
    let n = s.len() as int;
    assert((c * n) / n == c) by (nonlinear_arith)
        requires n > 0;
}

proof fn lemma_sum_of_constant(s: Seq<Sample>, c: int)
    requires
        constant_readings(s, c),
    ensures
        sum_of(s) == c * s.len(),
    decreases s.len(),
{
    if s.len() > 0 {
        let d = s.drop_last();
        assert(constant_readings(d, c)) by {
            assert forall|i: int| 0 <= i < d.len() implies (#[trigger] d[i]).reading == c by {
                assert(d[i] == s[i]);
            }
        }
        lemma_sum_of_constant(d, c);
        assert(s[s.len() - 1].reading == c);
        assert(c * d.len() + c == c * s.len()) by (nonlinear_arith)
            requires s.len() == d.len() + 1;
    }
}

/// The heat-dissipation scenario: air and process temperature both at
/// 300 K, 1000 rpm and 40 N·m. No alert comes while a window is empty;
/// once the message fills the last empty window, a heat-dissipation alert
/// comes, stamped with the youngest sample.
pub proof fn lemma_heat_dissipation_scenario(w: Seq<Seq<Sample>>, size: int, age: int, m: SensorMessage, now: int)
    requires
        constant_readings(stepped_windows(w, size, m)[0], 300_000),
        constant_readings(stepped_windows(w, size, m)[1], 300_000),
        constant_readings(stepped_windows(w, size, m)[2], 1_000_000),
        constant_readings(stepped_windows(w, size, m)[3], 40_000),
    ensures
        !all_present(stepped_windows(w, size, m)) ==> motor_outcome(w, size, age, m, now) is None,
        all_present(stepped_windows(w, size, m)) ==> motor_outcome(w, size, age, m, now) == Some(
            MotorFailure::HeatDissipationFailure,
        ) && windows_alert(stepped_windows(w, size, m), motor_of(m.sensor_id), age, now) == Some(
            Alert {
                time: youngest_of(stepped_windows(w, size, m)) as u64,
                motor_id: motor_of(m.sensor_id) as u16,
                failure: MotorFailure::HeatDissipationFailure,
            },
        ),
{
    let next = stepped_windows(w, size, m);
    if all_present(next) {
        lemma_mean_of_constant(next[0], 300_000);
        lemma_mean_of_constant(next[1], 300_000);
        lemma_mean_of_constant(next[2], 1_000_000);
        lemma_mean_of_constant(next[3], 40_000);
    }
}

/// The reset scenario: with the torque held at 40 N·m, no overstrain alert
/// comes within 275 s (11000 / 40) of the motor's last reset.
pub proof fn lemma_reset_scenario(w: Seq<Seq<Sample>>, size: int, age: int, m: SensorMessage, now: int)
    requires
        constant_readings(stepped_windows(w, size, m)[3], 40_000),
        elapsed(now, age) <= 275_000,
    ensures
        motor_outcome(w, size, age, m, now) != Some(MotorFailure::OverstrainFailure),
{
    let next = stepped_windows(w, size, m);
    if all_present(next) {
        lemma_mean_of_constant(next[3], 40_000);
        let e = elapsed(now, age);
        assert(e * 40_000 <= STRAIN_LIMIT * 1000) by (nonlinear_arith)
            requires 0 <= e <= 275_000;
        lemma_no_overstrain_before_limit(w, size, age, m, now);
    }
}

/// After an alert for a motor at `now0` (its age clock restarted there), an
/// overstrain alert for that motor at a later `now1`, whatever samples its
/// windows hold by then, needs `(now1 - now0) · torque` above the strain
/// limit.
pub proof fn lemma_alert_then_reset(
    w0: Seq<Seq<Sample>>,
    size: int,
    age0: int,
    m0: SensorMessage,
    now0: int,
    w1: Seq<Seq<Sample>>,
    m1: SensorMessage,
    now1: int,
)
    requires
        motor_outcome(w0, size, age0, m0, now0).is_some(),
        motor_outcome(w1, size, now0, m1, now1) == Some(MotorFailure::OverstrainFailure),
    ensures
        now1 > now0,
        (now1 - now0) * mean_of(stepped_windows(w1, size, m1)[3]) > STRAIN_LIMIT * 1000,
{
    lemma_overstrain_needs_age(w1, size, now0, m1, now1);
}

} // verus!
