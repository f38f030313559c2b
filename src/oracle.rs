//! The oracle: the alerts that a run should raise, computed offline from the
//! replayed sensor streams, and the comparison of received alerts against
//! them.
use vstd::prelude::*;

use crate::motor::{elapsed, mean_of};
use vstd::relations::{sorted_by, total_ordering};

use crate::records::{Alert, MotorFailure};
use crate::rules::{reading_in_range, sensor_data_indicates_failure, sensor_failure_of, MAX_READING};
use crate::window::{lemma_mean_in_range, lemma_sum_bounds, readings_in_range, sum_of, Sample};

verus! {

pub open spec fn failure_rank(f: MotorFailure) -> int {
    match f {
        MotorFailure::ToolWearFailure => 0,
        MotorFailure::HeatDissipationFailure => 1,
        MotorFailure::PowerFailure => 2,
        MotorFailure::OverstrainFailure => 3,
        MotorFailure::RandomFailure => 4,
    }
}

/// The order of alert lists: by time, then motor, then kind of failure.
/// It is total, and only equal alerts are equivalent.
pub open spec fn alert_leq(a: Alert, b: Alert) -> bool {
    a.time < b.time || (a.time == b.time && (a.motor_id < b.motor_id || (a.motor_id == b.motor_id
        && failure_rank(a.failure) <= failure_rank(b.failure))))
}

fn alert_leq_exec(a: &Alert, b: &Alert) -> (r: bool)
    ensures
        r == alert_leq(*a, *b),
{
    let ra: u8 = match a.failure {
        MotorFailure::ToolWearFailure => 0,
        MotorFailure::HeatDissipationFailure => 1,
        MotorFailure::PowerFailure => 2,
        MotorFailure::OverstrainFailure => 3,
        MotorFailure::RandomFailure => 4,
    };
    let rb: u8 = match b.failure {
        MotorFailure::ToolWearFailure => 0,
        MotorFailure::HeatDissipationFailure => 1,
        MotorFailure::PowerFailure => 2,
        MotorFailure::OverstrainFailure => 3,
        MotorFailure::RandomFailure => 4,
    };
    a.time < b.time || (a.time == b.time && (a.motor_id < b.motor_id || (a.motor_id == b.motor_id && ra <= rb)))
}

pub proof fn lemma_alert_leq_total()
    ensures
        total_ordering(|a: Alert, b: Alert| alert_leq(a, b)),
{
    assert forall|a: Alert, b: Alert| alert_leq(a, b) && alert_leq(b, a) implies a == b by {
        assert(failure_rank(a.failure) == failure_rank(b.failure));
        assert(a.failure == b.failure);
    }
}

/// `x` inserted into `s` after every alert that is not above it.
pub open spec fn insert_sorted(s: Seq<Alert>, x: Alert) -> Seq<Alert>
    decreases s.len(),
{
    if s.len() == 0 || alert_leq(s.last(), x) {
        s.push(x)
    } else {
        insert_sorted(s.drop_last(), x).push(s.last())
    }
}

/// `s` sorted by time, then motor, then kind of failure.
pub open spec fn alert_sort(s: Seq<Alert>) -> Seq<Alert>
    decreases s.len(),
{
    if s.len() == 0 {
        s
    } else {
        insert_sorted(alert_sort(s.drop_last()), s.last())
    }
}

pub open spec fn is_sorted(s: Seq<Alert>) -> bool {
    forall|i: int, j: int| 0 <= i < j < s.len() ==> alert_leq(#[trigger] s[i], #[trigger] s[j])
}

proof fn lemma_insert_bound(s: Seq<Alert>, x: Alert, b: Alert)
    requires
        forall|i: int| 0 <= i < s.len() ==> alert_leq(#[trigger] s[i], b),
        alert_leq(x, b),
    ensures
        forall|i: int| 0 <= i < insert_sorted(s, x).len() ==> alert_leq(#[trigger] insert_sorted(s, x)[i], b),
    decreases s.len(),
{
    let r = insert_sorted(s, x);
    if s.len() == 0 || alert_leq(s.last(), x) {
        assert forall|i: int| 0 <= i < r.len() implies alert_leq(#[trigger] r[i], b) by {
            if i < s.len() {
                assert(r[i] == s[i]);
            }
        }
    } else {
        let d = s.drop_last();
        assert forall|i: int| 0 <= i < d.len() implies alert_leq(#[trigger] d[i], b) by {
            assert(d[i] == s[i]);
        }
        lemma_insert_bound(d, x, b);
        let q = insert_sorted(d, x);
        assert forall|i: int| 0 <= i < r.len() implies alert_leq(#[trigger] r[i], b) by {
            if i < q.len() {
                assert(r[i] == q[i]);
            } else {
                assert(r[i] == s[s.len() - 1]);
            }
        }
    }
}

proof fn lemma_insert_keeps(s: Seq<Alert>, x: Alert)
    requires
        is_sorted(s),
    ensures
        is_sorted(insert_sorted(s, x)),
        insert_sorted(s, x).to_multiset() =~= s.to_multiset().insert(x),
    decreases s.len(),
{
    broadcast use vstd::seq_lib::group_to_multiset_ensures;
    lemma_alert_leq_total();
    let r = insert_sorted(s, x);
    if s.len() == 0 || alert_leq(s.last(), x) {
        assert forall|i: int, j: int| 0 <= i < j < r.len() implies alert_leq(#[trigger] r[i], #[trigger] r[j]) by {
            if j == s.len() {
                if i < s.len() - 1 {
                    assert(alert_leq(s[i], s[s.len() - 1]));
                }
            } else {
                assert(r[i] == s[i] && r[j] == s[j]);
            }
        }
    } else {
        let d = s.drop_last();
        let last = s.last();
        assert(is_sorted(d)) by {
            assert forall|i: int, j: int| 0 <= i < j < d.len() implies alert_leq(#[trigger] d[i], #[trigger] d[j]) by {
                assert(d[i] == s[i] && d[j] == s[j]);
            }
        }
        lemma_insert_keeps(d, x);
        assert forall|i: int| 0 <= i < d.len() implies alert_leq(#[trigger] d[i], last) by {
            assert(d[i] == s[i]);
            assert(alert_leq(s[i], s[s.len() - 1]));
        }
        lemma_insert_bound(d, x, last);
        let q = insert_sorted(d, x);
        assert forall|i: int, j: int| 0 <= i < j < r.len() implies alert_leq(#[trigger] r[i], #[trigger] r[j]) by {
            if j == q.len() {
                assert(r[i] == q[i]);
            } else {
                assert(r[i] == q[i] && r[j] == q[j]);
            }
        }
        assert(s == d.push(last));
    }
}

/// The sort orders alerts and keeps each of them, as often as it occurs.
pub proof fn lemma_alert_sort(s: Seq<Alert>)
    ensures
        is_sorted(alert_sort(s)),
        alert_sort(s).to_multiset() =~= s.to_multiset(),
    decreases s.len(),
{
    broadcast use vstd::seq_lib::group_to_multiset_ensures;
    if s.len() > 0 {
        lemma_alert_sort(s.drop_last());
        lemma_insert_keeps(alert_sort(s.drop_last()), s.last());
        assert(s == s.drop_last().push(s.last()));
    }
}

/// Two lists that hold the same alerts, in any order, sort to the same list.
pub proof fn lemma_reorderings_sort_alike(a: Seq<Alert>, b: Seq<Alert>)
    requires
        a.to_multiset() == b.to_multiset(),
    ensures
        alert_sort(a) == alert_sort(b),
{
    lemma_alert_sort(a);
    lemma_alert_sort(b);
    lemma_alert_leq_total();
    let leq = |x: Alert, y: Alert| alert_leq(x, y);
    let sa = alert_sort(a);
    let sb = alert_sort(b);
    assert forall|i: int, j: int| 0 <= i < j < sa.len() implies #[trigger] leq(sa[i], sa[j]) by {
        assert(alert_leq(sa[i], sa[j]));
    }
    assert forall|i: int, j: int| 0 <= i < j < sb.len() implies #[trigger] leq(sb[i], sb[j]) by {
        assert(alert_leq(sb[i], sb[j]));
    }
    assert(sorted_by(sa, leq));
    assert(sorted_by(sb, leq));
    vstd::seq_lib::lemma_sorted_unique(alert_sort(a), alert_sort(b), |x: Alert, y: Alert| alert_leq(x, y));
}

proof fn lemma_insert_at(s: Seq<Alert>, x: Alert, k: int)
    requires
        0 <= k <= s.len(),
        forall|i: int| k <= i < s.len() ==> !alert_leq(#[trigger] s[i], x),
        k == 0 || alert_leq(s[k - 1], x),
    ensures
        insert_sorted(s, x) == s.insert(k, x),
    decreases s.len(),
{
    if s.len() == k {
        assert(s.push(x) =~= s.insert(k, x));
    } else {
        let d = s.drop_last();
        assert forall|i: int| k <= i < d.len() implies !alert_leq(#[trigger] d[i], x) by {
            assert(d[i] == s[i]);
        }
        if k > 0 {
            assert(d[k - 1] == s[k - 1]);
        }
        lemma_insert_at(d, x, k);
        assert(d.insert(k, x).push(s.last()) =~= s.insert(k, x));
    }
}

/// Sorts alerts by time, then motor, then kind of failure.
pub fn sort_alerts_by_time(v: &Vec<Alert>) -> (r: Vec<Alert>)
    ensures
        r@ == alert_sort(v@),
{
    let mut out: Vec<Alert> = Vec::new();
    let mut i: usize = 0;
    while i < v.len()
        invariant
            0 <= i <= v@.len(),
            out@ == alert_sort(v@.take(i as int)),
        decreases v@.len() - i,
    {
        let x = v[i];
        let mut k: usize = out.len();
        while k > 0 && !alert_leq_exec(&out[k - 1], &x)
            invariant
                0 <= k <= out@.len(),
                forall|j: int| k <= j < out@.len() ==> !alert_leq(#[trigger] out@[j], x),
            decreases k,
        {
            k -= 1;
        }
        proof {
            lemma_insert_at(out@, x, k as int);
            assert(v@.take(i + 1).drop_last() =~= v@.take(i as int));
            assert(v@.take(i + 1).last() == x);
        }
        out.insert(k, x);
        i += 1;
    }
    assert(v@.take(v@.len() as int) =~= v@);
    out
}

/// The mean of the window `s[from..to]`, rounded down.
pub fn window_mean(s: &Vec<Sample>, from: usize, to: usize) -> (r: i64)
    requires
        from < to <= s@.len(),
        readings_in_range(s@),
    ensures
        r == mean_of(s@.subrange(from as int, to as int)),
        reading_in_range(r as int),
{
    let ghost w = s@.subrange(from as int, to as int);
    assert(readings_in_range(w));
    let mut sum: i128 = 0;
    let mut t: usize = from;
    while t < to
        invariant
            from <= t <= to <= s@.len(),
            readings_in_range(s@),
            w == s@.subrange(from as int, to as int),
            sum == sum_of(s@.subrange(from as int, t as int)),
        decreases to - t,
    {
        proof {
            let u = s@.subrange(from as int, t as int);
            assert(s@.subrange(from as int, t + 1).drop_last() =~= u);
            assert(readings_in_range(u));
            lemma_sum_bounds(u);
            assert(reading_in_range(s@[t as int].reading as int));
            assert(-MAX_READING * u.len() >= -MAX_READING * 0x1_0000_0000_0000_0000) by (nonlinear_arith)
                requires u.len() <= 0x1_0000_0000_0000_0000;
            assert(MAX_READING * u.len() <= MAX_READING * 0x1_0000_0000_0000_0000) by (nonlinear_arith)
                requires u.len() <= 0x1_0000_0000_0000_0000;
        }
        sum = sum + s[t].reading as i128;
        t += 1;
    }
    proof {
        lemma_mean_in_range(w);
    }
    crate::rules::floor_div(sum, (to - from) as i128) as i64
}

/// The instants at which a sensor that starts at `start_ms` and samples
/// every `interval_ms` takes its samples before `start_ms + duration_ms`:
/// `start_ms + i * interval_ms` for each `i` with `i * interval_ms <
/// duration_ms`.
pub fn sample_times(start_ms: u64, duration_ms: u64, interval_ms: u64) -> (r: Vec<u64>)
    requires
        interval_ms > 0,
        start_ms + duration_ms <= u64::MAX,
    ensures
        forall|i: int| 0 <= i < r@.len() ==> #[trigger] r@[i] == start_ms + i * interval_ms && i * interval_ms < duration_ms,
        r@.len() * interval_ms >= duration_ms,
{
    let end = start_ms + duration_ms;
    let mut out: Vec<u64> = Vec::new();
    let mut t: u64 = start_ms;
    assert(0 * interval_ms == 0) by (nonlinear_arith);
    while t < end
        invariant
            interval_ms > 0,
            start_ms <= t <= end,
            end == start_ms + duration_ms,
            t < end ==> t == start_ms + out@.len() * interval_ms,
            t >= end ==> out@.len() * interval_ms >= duration_ms,
            forall|i: int| 0 <= i < out@.len() ==> #[trigger] out@[i] == start_ms + i * interval_ms && i * interval_ms < duration_ms,
        decreases end - t,
    {
        let ghost n = out@.len() as int;
        let ghost prev = out@;
        out.push(t);
        proof {
            assert((n + 1) * interval_ms == n * interval_ms + interval_ms) by (nonlinear_arith);
            assert forall|i: int| 0 <= i < out@.len() implies #[trigger] out@[i] == start_ms + i * interval_ms && i * interval_ms < duration_ms by {
                if i < n {
                    assert(out@[i] == prev[i]);
                }
            }
        }
        if end - t <= interval_ms {
            t = end;
        } else {
            t = t + interval_ms;
        }
    }
    out
}

pub open spec fn views_of(b: Seq<Vec<Sample>>) -> Seq<Seq<Sample>> {
    Seq::new(b.len(), |j: int| b[j]@)
}

/// The first position of the reference window that ends at `p`: the last
/// `w` samples, or all of them when there are fewer.
pub open spec fn window_start(w: int, p: int) -> int {
    if p + 1 - w > 0 { p + 1 - w } else { 0 }
}

/// The mean of sensor `j`'s samples from position `from` to position `p`.
pub open spec fn reference_mean(b: Seq<Seq<Sample>>, j: int, from: int, p: int) -> int {
    mean_of(b[j].subrange(from, p + 1))
}

/// The oracle's replay of one motor over its first `pos` sample positions:
/// the alerts found and the instant of the last reset. At each position
/// the rule is applied to the means of each sensor's last `w` samples, with
/// the age measured from the last reset (initially `start`); an alert
/// carries the position's timestamp and resets the motor's age. With `w`
/// zero there is no datum and nothing is evaluated.
pub open spec fn oracle_state(b: Seq<Seq<Sample>>, w: int, start: int, motor: u16, pos: int) -> (Seq<Alert>, int)
    decreases pos,
{
    if pos <= 0 {
        (Seq::empty(), start)
    } else {
        let (alerts, reset) = oracle_state(b, w, start, motor, pos - 1);
        let p = pos - 1;
        if w >= 1 {
            let time = b[0][p].timestamp;
            let from = window_start(w, p);
            match sensor_failure_of(
                reference_mean(b, 0, from, p),
                reference_mean(b, 1, from, p),
                reference_mean(b, 2, from, p),
                reference_mean(b, 3, from, p),
                elapsed(time as int, reset),
            ) {
                Some(f) => (alerts.push(Alert { time, motor_id: motor, failure: f }), time as int),
                None => (alerts, reset),
            }
        } else {
            (alerts, reset)
        }
    }
}

/// The alerts the oracle expects of one motor.
pub open spec fn expected_motor_alerts(b: Seq<Seq<Sample>>, w: int, start: int, motor: u16) -> Seq<Alert> {
    oracle_state(b, w, start, motor, b[0].len() as int).0
}

pub open spec fn motor_samples_wf(b: Seq<Vec<Sample>>) -> bool {
    &&& b.len() == 4
    &&& forall|j: int| 0 <= j < 4 ==> readings_in_range(#[trigger] b[j]@)
    &&& b[1]@.len() == b[0]@.len()
    &&& b[2]@.len() == b[0]@.len()
    &&& b[3]@.len() == b[0]@.len()
}

/// The alerts expected of motor `motor_id`, whose four sensors produced
/// `buffers` (one sample sequence per sensor, all of one length), with a
/// reference window of `window_len` samples and the run starting at
/// `start_time`.
pub fn get_motor_alerts(motor_id: u16, buffers: &Vec<Vec<Sample>>, window_len: u64, start_time: u64) -> (r: Vec<Alert>)
    requires
        motor_samples_wf(buffers@),
    ensures
        r@ == expected_motor_alerts(views_of(buffers@), window_len as int, start_time as int, motor_id),
{
    let ghost b = views_of(buffers@);
    let n = buffers[0].len();
    let mut alerts: Vec<Alert> = Vec::new();
    let mut reset: u64 = start_time;
    let mut pos: usize = 0;
    while pos < n
        invariant
            motor_samples_wf(buffers@),
            b == views_of(buffers@),
            n == b[0].len(),
            0 <= pos <= n,
            (alerts@, reset as int) == oracle_state(b, window_len as int, start_time as int, motor_id, pos as int),
        decreases n - pos,
    {
        proof {
            assert(b[0] == buffers@[0]@);
            assert(b[1] == buffers@[1]@);
            assert(b[2] == buffers@[2]@);
            assert(b[3] == buffers@[3]@);
            assert(readings_in_range(buffers@[0]@));
            assert(readings_in_range(buffers@[1]@));
            assert(readings_in_range(buffers@[2]@));
            assert(readings_in_range(buffers@[3]@));
        }
        if window_len >= 1 {
            let from = if ((pos + 1) as u64) > window_len { pos + 1 - window_len as usize } else { 0 };
            let air = window_mean(&buffers[0], from, pos + 1);
            let process = window_mean(&buffers[1], from, pos + 1);
            let speed = window_mean(&buffers[2], from, pos + 1);
            let torque = window_mean(&buffers[3], from, pos + 1);
            let time = buffers[0][pos].timestamp;
            let age = if time >= reset { time - reset } else { 0 };
            if let Some(failure) = sensor_data_indicates_failure(air, process, speed, torque, age) {
                alerts.push(Alert { time, motor_id, failure });
                reset = time;
            }
        }
        pos += 1;
    }
    alerts
}

/// The oracle's expected alerts of motors `0..k`, motor after motor.
pub open spec fn expected_alerts_upto(m: Seq<Seq<Vec<Sample>>>, w: int, start: int, k: int) -> Seq<Alert>
    decreases k,
{
    if k <= 0 {
        Seq::empty()
    } else {
        expected_alerts_upto(m, w, start, k - 1) + expected_motor_alerts(views_of(m[k - 1]), w, start, (k - 1) as u16)
    }
}

pub open spec fn expected_alerts_of(m: Seq<Seq<Vec<Sample>>>, w: int, start: int) -> Seq<Alert> {
    alert_sort(expected_alerts_upto(m, w, start, m.len() as int))
}

/// The alerts that a run should raise: `samples[m][j]` holds the replayed
/// samples of sensor `j` of motor `m`; each reference window holds
/// `window_size_ms / sampling_interval_ms` samples.
pub fn get_expected_alerts(
    samples: &Vec<Vec<Vec<Sample>>>,
    window_size_ms: u64,
    sampling_interval_ms: u32,
    start_time: u64,
) -> (r: Vec<Alert>)
    requires
        sampling_interval_ms > 0,
        samples@.len() <= 0x1_0000,
        forall|m: int| 0 <= m < samples@.len() ==> motor_samples_wf(#[trigger] samples@[m]@),
    ensures
        r@ == expected_alerts_of(
            Seq::new(samples@.len(), |m: int| samples@[m]@),
            (window_size_ms / sampling_interval_ms as u64) as int,
            start_time as int,
        ),
{
    let ghost ms = Seq::new(samples@.len(), |m: int| samples@[m]@);
    let window_len = window_size_ms / sampling_interval_ms as u64;
    let mut alerts: Vec<Alert> = Vec::new();
    let mut m: usize = 0;
    while m < samples.len()
        invariant
            samples@.len() <= 0x1_0000,
            forall|k: int| 0 <= k < samples@.len() ==> motor_samples_wf(#[trigger] samples@[k]@),
            ms == Seq::new(samples@.len(), |k: int| samples@[k]@),
            0 <= m <= samples@.len(),
            alerts@ == expected_alerts_upto(ms, window_len as int, start_time as int, m as int),
        decreases samples@.len() - m,
    {
        let mut found = get_motor_alerts(m as u16, &samples[m], window_len, start_time);
        alerts.append(&mut found);
        m += 1;
    }
    sort_alerts_by_time(&alerts)
}

/// Whether a received alert matches an expected one: same motor, same
/// failure, and times at most `tolerance_ms` apart.
pub open spec fn alert_matches(received: Alert, expected: Alert, tolerance_ms: int) -> bool {
    &&& expected.failure == received.failure
    &&& expected.motor_id == received.motor_id
    &&& -tolerance_ms <= expected.time - received.time <= tolerance_ms
}

pub fn alert_equals(received: &Alert, expected: &Alert, tolerance_ms: u64) -> (r: bool)
    ensures
        r == alert_matches(*received, *expected, tolerance_ms as int),
{
    let close = if expected.time >= received.time {
        expected.time - received.time <= tolerance_ms
    } else {
        received.time - expected.time <= tolerance_ms
    };
    expected.failure == received.failure && expected.motor_id == received.motor_id && close
}

/// Which list an unmatched alert came from.
#[derive(Debug, Clone, Copy, PartialEq, Eq, Structural)]
pub enum AlertOrigin {
    Received,
    Expected,
}

impl AlertOrigin {
    pub fn as_str(&self) -> (r: &'static str)
        ensures
            r@ == (match self {
                AlertOrigin::Received => "Received"@,
                AlertOrigin::Expected => "Expected"@,
            }),
    {
        match self {
            AlertOrigin::Received => "Received",
            AlertOrigin::Expected => "Expected",
        }
    }
}

pub open spec fn tagged(origin: AlertOrigin, s: Seq<Alert>) -> Seq<(AlertOrigin, Alert)> {
    s.map_values(|a: Alert| (origin, a))
}

/// The unmatched alerts of two time-ordered lists, found by walking both at
/// once: the heads match and are both dropped, or the earlier head (the
/// expected one on a tie) is reported and dropped; what is left of either
/// list once the other is exhausted is reported too.
pub open spec fn unmatched_alerts(received: Seq<Alert>, expected: Seq<Alert>, tolerance_ms: int) -> Seq<
    (AlertOrigin, Alert),
>
    decreases received.len() + expected.len(),
{
    if received.len() == 0 {
        tagged(AlertOrigin::Expected, expected)
    } else if expected.len() == 0 {
        tagged(AlertOrigin::Received, received)
    } else if alert_matches(received[0], expected[0], tolerance_ms) {
        unmatched_alerts(received.drop_first(), expected.drop_first(), tolerance_ms)
    } else if received[0].time < expected[0].time {
        seq![(AlertOrigin::Received, received[0])] + unmatched_alerts(received.drop_first(), expected, tolerance_ms)
    } else {
        seq![(AlertOrigin::Expected, expected[0])] + unmatched_alerts(received, expected.drop_first(), tolerance_ms)
    }
}

fn push_tagged(out: &mut Vec<(AlertOrigin, Alert)>, origin: AlertOrigin, src: &Vec<Alert>, from: usize)
    requires
        from <= src@.len(),
    ensures
        final(out)@ == old(out)@ + tagged(origin, src@.skip(from as int)),
{
    let mut t: usize = from;
    while t < src.len()
        invariant
            from <= t <= src@.len(),
            out@ == old(out)@ + tagged(origin, src@.subrange(from as int, t as int)),
        decreases src@.len() - t,
    {
        out.push((origin, src[t]));
        proof {
            assert(tagged(origin, src@.subrange(from as int, t + 1)) =~= tagged(origin, src@.subrange(from as int, t as int)).push((origin, src@[t as int])));
        }
        t += 1;
    }
    assert(src@.subrange(from as int, src@.len() as int) =~= src@.skip(from as int));
}

/// The unmatched alerts of two lists that are already in time order.
pub fn alert_failures_of_sorted(received: &Vec<Alert>, expected: &Vec<Alert>, tolerance_ms: u64) -> (r: Vec<(AlertOrigin, Alert)>)
    ensures
        r@ == unmatched_alerts(received@, expected@, tolerance_ms as int),
{
    let mut out: Vec<(AlertOrigin, Alert)> = Vec::new();
    let mut ri: usize = 0;
    let mut ei: usize = 0;
    assert(received@.skip(0) =~= received@);
    assert(expected@.skip(0) =~= expected@);
    while ri < received.len() && ei < expected.len()
        invariant
            0 <= ri <= received@.len(),
            0 <= ei <= expected@.len(),
            out@ + unmatched_alerts(received@.skip(ri as int), expected@.skip(ei as int), tolerance_ms as int)
                == unmatched_alerts(received@, expected@, tolerance_ms as int),
        decreases received@.len() - ri + expected@.len() - ei,
    {
        let ghost rs = received@.skip(ri as int);
        let ghost es = expected@.skip(ei as int);
        let ghost before = out@;
        let r = received[ri];
        let e = expected[ei];
        assert(rs[0] == r && es[0] == e);
        assert(rs.drop_first() =~= received@.skip(ri + 1));
        assert(es.drop_first() =~= expected@.skip(ei + 1));
        if alert_equals(&r, &e, tolerance_ms) {
            ri += 1;
            ei += 1;
        } else if r.time < e.time {
            out.push((AlertOrigin::Received, r));
            assert(before + unmatched_alerts(rs, es, tolerance_ms as int) =~= out@ + unmatched_alerts(received@.skip(ri + 1), es, tolerance_ms as int));
            ri += 1;
        } else {
            out.push((AlertOrigin::Expected, e));
            assert(before + unmatched_alerts(rs, es, tolerance_ms as int) =~= out@ + unmatched_alerts(rs, expected@.skip(ei + 1), tolerance_ms as int));
            ei += 1;
        }
    }
    let ghost before = out@;
    proof {
        let rs = received@.skip(ri as int);
        let es = expected@.skip(ei as int);
        if rs.len() == 0 {
            assert(unmatched_alerts(rs, es, tolerance_ms as int) == tagged(AlertOrigin::Expected, es));
            assert(tagged(AlertOrigin::Received, rs) =~= Seq::empty());
        } else {
            assert(es.len() == 0);
            assert(tagged(AlertOrigin::Expected, es) =~= Seq::empty());
        }
    }
    push_tagged(&mut out, AlertOrigin::Received, received, ri);
    push_tagged(&mut out, AlertOrigin::Expected, expected, ei);
    proof {
        let rs = received@.skip(ri as int);
        let es = expected@.skip(ei as int);
        if rs.len() == 0 {
            assert(out@ =~= before + Seq::empty() + tagged(AlertOrigin::Expected, es));
        } else {
            assert(out@ =~= before + tagged(AlertOrigin::Received, rs) + Seq::empty());
        }
    }
    out
}

/// The received alerts that match no expected one and the expected alerts
/// that no received one matches, each tagged with its list: both lists are
/// sorted by time, then motor, then kind of failure, and walked at once.
/// Two lists that hold the same alerts, in any order, give no failure.
pub fn get_alert_failures(received: &Vec<Alert>, expected: &Vec<Alert>, tolerance_ms: u64) -> (r: Vec<(AlertOrigin, Alert)>)
    ensures
        r@ == unmatched_alerts(alert_sort(received@), alert_sort(expected@), tolerance_ms as int),
        received@.to_multiset() == expected@.to_multiset() ==> r@.len() == 0,
{
    proof {
        if received@.to_multiset() == expected@.to_multiset() {
            lemma_reorderings_sort_alike(received@, expected@);
            let s = alert_sort(received@);
            assert forall|i: int| 0 <= i < s.len() implies alert_matches(#[trigger] s[i], s[i], tolerance_ms as int) by {}
            lemma_no_failures_iff_pairwise(s, s, tolerance_ms as int);
        }
    }
    let received_sorted = sort_alerts_by_time(received);
    let expected_sorted = sort_alerts_by_time(expected);
    alert_failures_of_sorted(&received_sorted, &expected_sorted, tolerance_ms)
}

/// The walk reports nothing exactly when the two lists have the same length
/// and match pair for pair.
pub proof fn lemma_no_failures_iff_pairwise(received: Seq<Alert>, expected: Seq<Alert>, tolerance_ms: int)
    ensures
        unmatched_alerts(received, expected, tolerance_ms).len() == 0 <==> (received.len() == expected.len()
            && forall|i: int| 0 <= i < received.len() ==> alert_matches(#[trigger] received[i], expected[i], tolerance_ms)),
    decreases received.len() + expected.len(),
{
    if received.len() == 0 || expected.len() == 0 {
        if received.len() > 0 {
            assert(tagged(AlertOrigin::Received, received).len() == received.len());
        }
        if expected.len() > 0 {
            assert(tagged(AlertOrigin::Expected, expected).len() == expected.len());
        }
    } else if alert_matches(received[0], expected[0], tolerance_ms) {
        let rd = received.drop_first();
        let ed = expected.drop_first();
        lemma_no_failures_iff_pairwise(rd, ed, tolerance_ms);
        if rd.len() == ed.len() && forall|i: int| 0 <= i < rd.len() ==> alert_matches(#[trigger] rd[i], ed[i], tolerance_ms) {
            assert forall|i: int| 0 <= i < received.len() implies alert_matches(#[trigger] received[i], expected[i], tolerance_ms) by {
                if i > 0 {
                    assert(rd[i - 1] == received[i] && ed[i - 1] == expected[i]);
                }
            }
        }
        if received.len() == expected.len() && forall|i: int| 0 <= i < received.len() ==> alert_matches(#[trigger] received[i], expected[i], tolerance_ms) {
            assert forall|i: int| 0 <= i < rd.len() implies alert_matches(#[trigger] rd[i], ed[i], tolerance_ms) by {
                assert(rd[i] == received[i + 1] && ed[i] == expected[i + 1]);
            }
        }
    } else {
        assert(!alert_matches(received[0], expected[0], tolerance_ms));
    }
}

/// The oracle is a function of its inputs: equal replayed streams and
/// parameters give the same expected alerts, element for element.
pub proof fn lemma_oracle_deterministic(
    m1: Seq<Seq<Vec<Sample>>>,
    m2: Seq<Seq<Vec<Sample>>>,
    w: int,
    start: int,
)
    requires
        m1.len() == m2.len(),
        forall|i: int, j: int| 0 <= i < m1.len() && 0 <= j < m1[i].len() ==> #[trigger] m1[i][j]@ == #[trigger] m2[i][j]@,
        forall|i: int| 0 <= i < m1.len() ==> #[trigger] m1[i].len() == m2[i].len(),
    ensures
        expected_alerts_of(m1, w, start) == expected_alerts_of(m2, w, start),
{
    assert forall|k: int| 0 <= k < m1.len() implies views_of(#[trigger] m1[k]) == views_of(m2[k]) by {
        assert(views_of(m1[k]) =~= views_of(m2[k]));
    }
    lemma_upto_equal(m1, m2, w, start, m1.len() as int);
}

proof fn lemma_upto_equal(m1: Seq<Seq<Vec<Sample>>>, m2: Seq<Seq<Vec<Sample>>>, w: int, start: int, k: int)
    requires
        0 <= k <= m1.len() == m2.len(),
        forall|i: int| 0 <= i < m1.len() ==> views_of(#[trigger] m1[i]) == views_of(m2[i]),
    ensures
        expected_alerts_upto(m1, w, start, k) == expected_alerts_upto(m2, w, start, k),
    decreases k,
{
    if k > 0 {
        lemma_upto_equal(m1, m2, w, start, k - 1);
        assert(views_of(m1[k - 1]) == views_of(m2[k - 1]));
    }
}

} // verus!
