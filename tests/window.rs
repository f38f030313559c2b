use motor_monitor::motor::{violated_rule, MotorGroupSensorsBuffers};
use motor_monitor::records::{get_now_duration, Alert, AlertWithDelay, MotorFailure};
use motor_monitor::window::{Average, Sample, SlidingWindow};

fn sample(timestamp: u64, reading: i64) -> Sample {
    Sample { timestamp, reading }
}

#[test]
fn eviction_keeps_only_live_samples() {
    let mut w = SlidingWindow::new(3000);
    for (t, r) in [(1000, 10), (1999, 20), (2000, 30), (4000, 40), (5000, 50)] {
        w.add(sample(t, r));
    }
    let avg = w.average_at(5000);
    // samples with timestamp < 5000 - 3000 are gone
    assert_eq!(w.samples(), vec![sample(2000, 30), sample(4000, 40), sample(5000, 50)]);
    assert!(w.samples().iter().all(|s| s.timestamp + 3000 >= 5000));
    assert_eq!(avg, Some(Average { value: 40, number_of_values: 3, timestamp: 5000 }));
}

#[test]
fn empty_window_has_no_datum() {
    let mut w = SlidingWindow::new(1000);
    assert_eq!(w.get_window_average(), None);
    w.add(sample(0, 5));
    assert_eq!(w.average_at(10_000), None);
    assert_eq!(w.len(), 0);
}

#[test]
fn averages_round_down() {
    let mut w = SlidingWindow::new(1000);
    w.add(sample(3, -1));
    w.add(sample(1, -2));
    assert_eq!(w.get_window_average(), Some(Average { value: -2, number_of_values: 2, timestamp: 3 }));
    w.reset();
    assert_eq!(w.len(), 0);
    assert_eq!(w.window_size(), 1000);
}

#[test]
fn motor_buffers_report_youngest_sample_and_rule() {
    let mut b = MotorGroupSensorsBuffers::new(3000, 1000);
    assert!(!b.is_some());
    b.add(0, sample(100, 300_000));
    b.add(1, sample(400, 300_000));
    b.add(2, sample(300, 1_000_000));
    assert!(!b.is_some());
    b.add(3, sample(200, 40_000));
    assert!(b.is_some());
    assert_eq!(b.get_time(), 400);
    assert_eq!(violated_rule(&b, 2000), Some(MotorFailure::HeatDissipationFailure));
    b.refresh_caches(3200);
    assert!(!b.is_some());
    b.reset(5000);
    assert_eq!(b.age(), 5000);
}

#[test]
fn youngest_sample_of_partly_filled_buffers() {
    let mut b = MotorGroupSensorsBuffers::new(3000, 0);
    b.add(2, sample(700, 1_000_000));
    assert_eq!(b.get_time(), 700);
    b.add(0, sample(650, 300_000));
    assert_eq!(b.get_time(), 700);
}

#[test]
fn logged_alert_converts_back() {
    let logged = AlertWithDelay { time: 7, motor_id: 3, failure: MotorFailure::PowerFailure, delay: 12 };
    assert_eq!(Alert::from_alert_with_delay(logged), Alert { time: 7, motor_id: 3, failure: MotorFailure::PowerFailure });
}

#[test]
fn clock_reads_epoch_milliseconds() {
    // later than 2020-09-13 and earlier than the year 2200
    let now = get_now_duration();
    assert!(now > 1_600_000_000_000 && now < 7_258_118_400_000);
}
