//! The reactive-streaming model: a sliding window over the merged message
//! stream, re-emitted every hop, and the evaluation of one emitted window
//! (group by sensor, average, group by motor, apply the rule).
use vstd::prelude::*;

use crate::motor::{elapsed, max2, windows_alert};
use crate::records::{Alert, SensorMessage};
use crate::rules::{reading_in_range, sensor_data_indicates_failure, sensor_failure_of, MAX_READING};
use crate::window::{latest_of, sum_of, Sample};

verus! {

/// The messages of `s` still inside a window of `size` ms at `now`: those
/// with `timestamp + size >= now`, in their order.
pub open spec fn live_messages(s: Seq<SensorMessage>, size: int, now: int) -> Seq<SensorMessage>
    decreases s.len(),
{
    if s.len() == 0 {
        s
    } else {
        let rest = live_messages(s.drop_last(), size, now);
        if s.last().timestamp + size >= now { rest.push(s.last()) } else { rest }
    }
}

/// A window over a stream of messages that is re-emitted on every hop: the
/// messages are buffered as they come; on each hop those that have left the
/// window are dropped and a copy of the rest is emitted. An error closes it
/// without emitting; completion emits what is left once and closes it.
pub struct SlidingWindowWithTimeFunctionObserver {
    window_size: u64,
    buffer: Vec<SensorMessage>,
    closed: bool,
}

impl SlidingWindowWithTimeFunctionObserver {
    pub closed spec fn buffered(&self) -> Seq<SensorMessage> {
        self.buffer@
    }

    pub closed spec fn size(&self) -> int {
        self.window_size as int
    }

    pub closed spec fn closed_view(&self) -> bool {
        self.closed
    }

    pub fn new(window_size: u64) -> (r: Self)
        ensures
            r.buffered() == Seq::<SensorMessage>::empty(),
            r.size() == window_size,
            !r.closed_view(),
    {
        SlidingWindowWithTimeFunctionObserver { window_size, buffer: Vec::new(), closed: false }
    }

    pub fn is_closed(&self) -> (r: bool)
        ensures
            r == self.closed_view(),
    {
        self.closed
    }

    /// Buffers a message, unless the window is closed.
    pub fn next(&mut self, value: SensorMessage)
        ensures
            final(self).size() == old(self).size(),
            final(self).closed_view() == old(self).closed_view(),
            final(self).buffered() == if old(self).closed_view() {
                old(self).buffered()
            } else {
                old(self).buffered().push(value)
            },
    {
        if !self.closed {
            self.buffer.push(value);
        }
    }

    /// One hop at `now`: unless the window is closed or empty, drops what
    /// has left it and emits a copy of the rest.
    pub fn tick(&mut self, now: u64) -> (r: Option<Vec<SensorMessage>>)
        ensures
            final(self).size() == old(self).size(),
            final(self).closed_view() == old(self).closed_view(),
            old(self).closed_view() || old(self).buffered().len() == 0 ==> r is None && final(self).buffered()
                == old(self).buffered(),
            !old(self).closed_view() && old(self).buffered().len() > 0 ==> {
                let kept = live_messages(old(self).buffered(), old(self).size(), now as int);
                &&& final(self).buffered() == kept
                &&& r is Some
                &&& r.unwrap()@ == kept
            },
    {
        if self.closed || self.buffer.len() == 0 {
            return None;
        }
        let ghost old_buffer = self.buffer@;
        let ghost size = self.window_size as int;
        let mut kept: Vec<SensorMessage> = Vec::new();
        let n = self.buffer.len();
        let mut i: usize = 0;
        while i < n
            invariant
                n == old_buffer.len(),
                self.buffer@ == old_buffer,
                self.window_size == size,
                0 <= i <= n,
                kept@ == live_messages(old_buffer.take(i as int), size, now as int),
            decreases n - i,
        {
            let m = self.buffer[i];
            if m.timestamp as u128 + self.window_size as u128 >= now as u128 {
                kept.push(m);
            }
            proof {
                assert(old_buffer.take(i + 1).drop_last() =~= old_buffer.take(i as int));
            }
            i += 1;
        }
        assert(old_buffer.take(n as int) =~= old_buffer);
        let copy = kept.clone();
        self.buffer = kept;
        Some(copy)
    }

    /// The source failed: closes the window without emitting.
    pub fn error(&mut self)
        ensures
            final(self).closed_view(),
            final(self).buffered() == old(self).buffered(),
            final(self).size() == old(self).size(),
    {
        self.closed = true;
    }

    /// The source completed: unless the window is closed, emits what is
    /// buffered (if anything) and closes it.
    pub fn complete(&mut self) -> (r: Option<Vec<SensorMessage>>)
        ensures
            final(self).closed_view(),
            final(self).size() == old(self).size(),
            old(self).closed_view() ==> r is None && final(self).buffered() == old(self).buffered(),
            !old(self).closed_view() ==> final(self).buffered() == Seq::<SensorMessage>::empty() && (if old(
                self,
            ).buffered().len() == 0 {
                r is None
            } else {
                r is Some && r.unwrap()@ == old(self).buffered()
            }),
    {
        if self.closed {
            return None;
        }
        let mut buffer: Vec<SensorMessage> = Vec::new();
        std::mem::swap(&mut buffer, &mut self.buffer);
        self.closed = true;
        if buffer.len() == 0 {
            None
        } else {
            Some(buffer)
        }
    }
}

pub open spec fn messages_in_range(s: Seq<SensorMessage>) -> bool {
    forall|i: int| 0 <= i < s.len() ==> reading_in_range(#[trigger] s[i].reading as int)
}

/// Count, sum of readings and latest timestamp of the messages of sensor
/// `id` in `s`.
pub open spec fn sensor_stats(s: Seq<SensorMessage>, id: int) -> (int, int, int)
    decreases s.len(),
{
    if s.len() == 0 {
        (0, 0, 0)
    } else {
        let (n, sum, latest) = sensor_stats(s.drop_last(), id);
        let m = s.last();
        if m.sensor_id == id {
            (n + 1, sum + m.reading, max2(latest, m.timestamp as int))
        } else {
            (n, sum, latest)
        }
    }
}

/// The mean reading of sensor `id` in `s`, rounded down.
pub open spec fn sensor_mean(s: Seq<SensorMessage>, id: int) -> int {
    sensor_stats(s, id).1 / sensor_stats(s, id).0
}

/// The alert that one emitted window raises for motor `m` whose last reset
/// was at `age`, when evaluated at `now`: none unless each of the motor's
/// four sensors has a message in the window.
pub open spec fn window_motor_alert(s: Seq<SensorMessage>, m: int, age: int, now: int) -> Option<Alert> {
    if sensor_stats(s, 4 * m).0 > 0 && sensor_stats(s, 4 * m + 1).0 > 0 && sensor_stats(s, 4 * m + 2).0 > 0
        && sensor_stats(s, 4 * m + 3).0 > 0 {
        match sensor_failure_of(
            sensor_mean(s, 4 * m),
            sensor_mean(s, 4 * m + 1),
            sensor_mean(s, 4 * m + 2),
            sensor_mean(s, 4 * m + 3),
            elapsed(now, age),
        ) {
            Some(f) => Some(
                Alert {
                    time: max2(
                        max2(sensor_stats(s, 4 * m).2, sensor_stats(s, 4 * m + 1).2),
                        max2(sensor_stats(s, 4 * m + 2).2, sensor_stats(s, 4 * m + 3).2),
                    ) as u64,
                    motor_id: m as u16,
                    failure: f,
                },
            ),
            None => None,
        }
    } else {
        None
    }
}

/// The alerts of one emitted window over motors `0..k`, in motor order.
pub open spec fn window_alerts_upto(s: Seq<SensorMessage>, ages: Seq<u64>, now: int, k: int) -> Seq<Alert>
    decreases k,
{
    if k <= 0 {
        Seq::empty()
    } else {
        let rest = window_alerts_upto(s, ages, now, k - 1);
        match window_motor_alert(s, k - 1, ages[k - 1] as int, now) {
            Some(a) => rest.push(a),
            None => rest,
        }
    }
}

proof fn lemma_stats_bounds(s: Seq<SensorMessage>, id: int)
    requires
        messages_in_range(s),
    ensures
        0 <= sensor_stats(s, id).0 <= s.len(),
        -MAX_READING * sensor_stats(s, id).0 <= sensor_stats(s, id).1 <= MAX_READING * sensor_stats(s, id).0,
        0 <= sensor_stats(s, id).2 <= u64::MAX,
    decreases s.len(),
{
    if s.len() > 0 {
        assert(messages_in_range(s.drop_last()));
        lemma_stats_bounds(s.drop_last(), id);
        assert(reading_in_range(s[s.len() - 1].reading as int));
    }
}

/// Count, sum and latest timestamp of sensor `id`'s messages.
fn stats_of(s: &Vec<SensorMessage>, id: u32) -> (r: (u64, i128, u64))
    requires
        messages_in_range(s@),
    ensures
        r.0 == sensor_stats(s@, id as int).0,
        r.1 == sensor_stats(s@, id as int).1,
        r.2 == sensor_stats(s@, id as int).2,
{
    let mut count: u64 = 0;
    let mut sum: i128 = 0;
    let mut latest: u64 = 0;
    let mut i: usize = 0;
    while i < s.len()
        invariant
            messages_in_range(s@),
            0 <= i <= s@.len(),
            (count as int, sum as int, latest as int) == sensor_stats(s@.take(i as int), id as int),
        decreases s@.len() - i,
    {
        proof {
            let t = s@.take(i as int);
            assert(s@.take(i + 1).drop_last() =~= t);
            assert(messages_in_range(t));
            lemma_stats_bounds(t, id as int);
            assert(reading_in_range(s@[i as int].reading as int));
            assert(t.len() <= usize::MAX);
            let c = sensor_stats(t, id as int).0;
            assert(-MAX_READING * c >= -MAX_READING * 0x1_0000_0000_0000_0000) by (nonlinear_arith)
                requires 0 <= c <= 0x1_0000_0000_0000_0000;
            assert(MAX_READING * c <= MAX_READING * 0x1_0000_0000_0000_0000) by (nonlinear_arith)
                requires 0 <= c <= 0x1_0000_0000_0000_0000;
        }
        let m = s[i];
        if m.sensor_id == id {
            count = count + 1;
            sum = sum + m.reading as i128;
            if m.timestamp > latest {
                latest = m.timestamp;
            }
        }
        i += 1;
    }
    assert(s@.take(s@.len() as int) =~= s@);
    (count, sum, latest)
}

/// Evaluates one emitted window at `now`, with `ages[m]` the instant of
/// motor `m`'s last reset: for each motor in order whose four sensors all
/// have messages in the window, the rule is applied to their mean
/// readings; an alert carries the latest timestamp among those messages and
/// restarts that motor's age clock at `now`.
pub fn window_alerts(messages: &Vec<SensorMessage>, ages: &mut Vec<u64>, now: u64) -> (r: Vec<Alert>)
    requires
        messages_in_range(messages@),
        old(ages)@.len() <= 0x1_0000,
    ensures
        r@ == window_alerts_upto(messages@, old(ages)@, now as int, old(ages)@.len() as int),
        final(ages)@.len() == old(ages)@.len(),
        forall|m: int|
            0 <= m < old(ages)@.len() ==> #[trigger] final(ages)@[m] == if window_motor_alert(
                messages@,
                m,
                old(ages)@[m] as int,
                now as int,
            ) is Some {
                now
            } else {
                old(ages)@[m]
            },
{
    let ghost s = messages@;
    let ghost initial = ages@;
    let n = ages.len();
    let mut alerts: Vec<Alert> = Vec::new();
    let mut m: usize = 0;
    while m < n
        invariant
            s == messages@,
            messages_in_range(s),
            n == initial.len() == ages@.len(),
            n <= 0x1_0000,
            0 <= m <= n,
            alerts@ == window_alerts_upto(s, initial, now as int, m as int),
            forall|k: int| m <= k < n ==> #[trigger] ages@[k] == initial[k],
            forall|k: int|
                0 <= k < m ==> #[trigger] ages@[k] == if window_motor_alert(s, k, initial[k] as int, now as int) is Some {
                    now
                } else {
                    initial[k]
                },
        decreases n - m,
    {
        let base = (m as u32) * 4;
        let (c0, s0, t0) = stats_of(messages, base);
        let (c1, s1, t1) = stats_of(messages, base + 1);
        let (c2, s2, t2) = stats_of(messages, base + 2);
        let (c3, s3, t3) = stats_of(messages, base + 3);
        if c0 > 0 && c1 > 0 && c2 > 0 && c3 > 0 {
            proof {
                lemma_stats_bounds(s, base as int);
                lemma_stats_bounds(s, base + 1);
                lemma_stats_bounds(s, base + 2);
                lemma_stats_bounds(s, base + 3);
                lemma_mean_bound(s0 as int, c0 as int);
                lemma_mean_bound(s1 as int, c1 as int);
                lemma_mean_bound(s2 as int, c2 as int);
                lemma_mean_bound(s3 as int, c3 as int);
            }
            let a0 = crate::rules::floor_div(s0, c0 as i128) as i64;
            let a1 = crate::rules::floor_div(s1, c1 as i128) as i64;
            let a2 = crate::rules::floor_div(s2, c2 as i128) as i64;
            let a3 = crate::rules::floor_div(s3, c3 as i128) as i64;
            let since = ages[m];
            let age = if now >= since { now - since } else { 0 };
            if let Some(failure) = sensor_data_indicates_failure(a0, a1, a2, a3, age) {
                let t01 = if t0 >= t1 { t0 } else { t1 };
                let t23 = if t2 >= t3 { t2 } else { t3 };
                let time = if t01 >= t23 { t01 } else { t23 };
                alerts.push(Alert { time, motor_id: m as u16, failure });
                ages.set(m, now);
            }
        }
        m += 1;
    }
    alerts
}

proof fn lemma_mean_bound(sum: int, count: int)
    requires
        count > 0,
        -MAX_READING * count <= sum <= MAX_READING * count,
    ensures
        reading_in_range(sum / count),
{
    assert(-MAX_READING <= sum / count <= MAX_READING) by (nonlinear_arith)
        requires -MAX_READING * count <= sum <= MAX_READING * count, count > 0;
}

/// The samples that the messages of sensor `id` in `s` carry, in order.
pub open spec fn samples_of(s: Seq<SensorMessage>, id: int) -> Seq<Sample>
    decreases s.len(),
{
    if s.len() == 0 {
        Seq::empty()
    } else {
        let rest = samples_of(s.drop_last(), id);
        let m = s.last();
        if m.sensor_id == id { rest.push(Sample { timestamp: m.timestamp, reading: m.reading }) } else { rest }
    }
}

pub proof fn lemma_stats_of_samples(s: Seq<SensorMessage>, id: int)
    ensures
        sensor_stats(s, id) == (
            samples_of(s, id).len() as int,
            sum_of(samples_of(s, id)),
            latest_of(samples_of(s, id)),
        ),
    decreases s.len(),
{
    if s.len() > 0 {
        lemma_stats_of_samples(s.drop_last(), id);
        let rest = samples_of(s.drop_last(), id);
        if s.last().sensor_id == id {
            let t = rest.push(Sample { timestamp: s.last().timestamp, reading: s.last().reading });
            assert(t.drop_last() =~= rest);
        }
    }
}

/// The four windows that an emitted window holds for motor `m`: the samples
/// of each of its sensors.
pub open spec fn motor_windows(s: Seq<SensorMessage>, m: int) -> Seq<Seq<Sample>> {
    seq![samples_of(s, 4 * m), samples_of(s, 4 * m + 1), samples_of(s, 4 * m + 2), samples_of(s, 4 * m + 3)]
}

/// The models agree on equal data: the alert that the reactive model raises
/// for a motor from an emitted window is the alert that the client-server
/// evaluation (`windows_alert`) gives for four windows holding the same
/// samples, with the same reset instant and evaluation instant.
pub proof fn lemma_reactive_agrees_with_windows(s: Seq<SensorMessage>, m: int, age: int, now: int)
    ensures
        window_motor_alert(s, m, age, now) == windows_alert(motor_windows(s, m), m, age, now),
{
    lemma_stats_of_samples(s, 4 * m);
    lemma_stats_of_samples(s, 4 * m + 1);
    lemma_stats_of_samples(s, 4 * m + 2);
    lemma_stats_of_samples(s, 4 * m + 3);
}

} // verus!
