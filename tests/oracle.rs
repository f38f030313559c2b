use motor_monitor::oracle::sample_times;
use motor_monitor::oracle::{
    alert_equals, get_alert_failures, get_expected_alerts, get_motor_alerts, sort_alerts_by_time,
    window_mean, AlertOrigin,
};
use motor_monitor::records::{Alert, MotorFailure};
use motor_monitor::window::Sample;

fn samples(values: [i64; 4], n: u64, start: u64) -> Vec<Vec<Sample>> {
    (0..4)
        .map(|j| (0..n).map(|k| Sample { timestamp: start + k * 1000, reading: values[j] }).collect())
        .collect()
}

fn alert(time: u64, motor_id: u16, failure: MotorFailure) -> Alert {
    Alert { time, motor_id, failure }
}

#[test]
fn oracle_heat_dissipation_every_sample() {
    let alerts = get_motor_alerts(0, &samples([300_000, 300_000, 1_000_000, 40_000], 3, 0), 3, 0);
    let expected: Vec<Alert> =
        (0..3).map(|k| alert(k * 1000, 0, MotorFailure::HeatDissipationFailure)).collect();
    assert_eq!(alerts, expected);
}

#[test]
fn oracle_overstrain_after_age() {
    let alerts = get_motor_alerts(1, &samples([298_000, 308_500, 1_500_000, 40_000], 600, 0), 3, 0);
    assert_eq!(
        alerts,
        vec![
            alert(276_000, 1, MotorFailure::OverstrainFailure),
            alert(552_000, 1, MotorFailure::OverstrainFailure)
        ]
    );
}

#[test]
fn oracle_without_window_expects_nothing() {
    let alerts = get_motor_alerts(0, &samples([300_000, 300_000, 1_000_000, 40_000], 5, 0), 0, 0);
    assert!(alerts.is_empty());
}

#[test]
fn oracle_averages_the_last_samples() {
    let mut b = samples([300_000, 315_000, 1_500_000, 40_000], 4, 0);
    // the last speed sample lifts the mean of the last three samples to
    // 2300 rpm, about 9634 W; over four samples it would stay in the band
    b[2][3].reading = 3_900_000;
    assert_eq!(window_mean(&b[2], 1, 4), 2_300_000);
    assert_eq!(window_mean(&b[2], 0, 4), 2_100_000);
    let alerts = get_motor_alerts(0, &b, 3, 0);
    assert_eq!(alerts, vec![alert(3000, 0, MotorFailure::PowerFailure)]);
}

#[test]
fn oracle_is_deterministic_and_sorted() {
    let run = vec![
        samples([300_000, 300_000, 1_000_000, 40_000], 4, 500),
        samples([298_000, 308_500, 3_000_000, 40_000], 4, 0),
    ];
    let a = get_expected_alerts(&run, 3000, 1000, 0);
    let b = get_expected_alerts(&run, 3000, 1000, 0);
    assert_eq!(a, b);
    let times: Vec<u64> = a.iter().map(|x| x.time).collect();
    assert_eq!(times, vec![0, 500, 1000, 1500, 2000, 2500, 3000, 3500]);
    assert_eq!(a[0].motor_id, 1);
}

#[test]
fn alerts_match_within_tolerance() {
    let e = alert(10_000, 1, MotorFailure::PowerFailure);
    assert!(alert_equals(&alert(13_000, 1, MotorFailure::PowerFailure), &e, 3000));
    assert!(!alert_equals(&alert(13_001, 1, MotorFailure::PowerFailure), &e, 3000));
    assert!(!alert_equals(&alert(10_000, 2, MotorFailure::PowerFailure), &e, 3000));
    assert!(!alert_equals(&alert(10_000, 1, MotorFailure::OverstrainFailure), &e, 3000));
}

#[test]
fn unmatched_alerts_are_reported() {
    let received = vec![
        alert(9_000, 0, MotorFailure::PowerFailure),
        alert(1_000, 0, MotorFailure::HeatDissipationFailure),
        alert(20_000, 1, MotorFailure::PowerFailure),
    ];
    let expected = vec![
        alert(2_000, 0, MotorFailure::HeatDissipationFailure),
        alert(5_000, 1, MotorFailure::OverstrainFailure),
        alert(30_000, 0, MotorFailure::PowerFailure),
    ];
    let failures = get_alert_failures(&received, &expected, 3000);
    assert_eq!(
        failures,
        vec![
            (AlertOrigin::Expected, alert(5_000, 1, MotorFailure::OverstrainFailure)),
            (AlertOrigin::Received, alert(9_000, 0, MotorFailure::PowerFailure)),
            (AlertOrigin::Received, alert(20_000, 1, MotorFailure::PowerFailure)),
            (AlertOrigin::Expected, alert(30_000, 0, MotorFailure::PowerFailure)),
        ]
    );
    assert_eq!(AlertOrigin::Received.as_str(), "Received");
    assert_eq!(AlertOrigin::Expected.as_str(), "Expected");
}

#[test]
fn empty_lists_have_no_failures() {
    assert!(get_alert_failures(&vec![], &vec![], 0).is_empty());
    let only = vec![alert(1, 0, MotorFailure::PowerFailure)];
    assert_eq!(get_alert_failures(&only, &vec![], 0), vec![(AlertOrigin::Received, only[0])]);
}

#[test]
fn sorting_orders_by_time_then_motor_then_failure() {
    let v = vec![
        alert(5, 2, MotorFailure::PowerFailure),
        alert(1, 0, MotorFailure::PowerFailure),
        alert(5, 1, MotorFailure::OverstrainFailure),
        alert(5, 1, MotorFailure::HeatDissipationFailure),
    ];
    assert_eq!(
        sort_alerts_by_time(&v),
        vec![
            alert(1, 0, MotorFailure::PowerFailure),
            alert(5, 1, MotorFailure::HeatDissipationFailure),
            alert(5, 1, MotorFailure::OverstrainFailure),
            alert(5, 2, MotorFailure::PowerFailure),
        ]
    );
}

#[test]
fn reordered_alerts_all_match() {
    let heat = MotorFailure::HeatDissipationFailure;
    let received = vec![alert(3, 0, heat), alert(3, 1, heat), alert(1, 1, MotorFailure::PowerFailure)];
    let expected = vec![alert(1, 1, MotorFailure::PowerFailure), alert(3, 1, heat), alert(3, 0, heat)];
    assert!(get_alert_failures(&received, &expected, 0).is_empty());
}

#[test]
fn oracle_window_is_not_restarted_by_an_alert() {
    // torque 10 N·m, then 30 N·m: the mean over the last two samples is
    // 20 N·m, about 3.14 kW at 1500 rpm, still below 3.5 kW
    let mut b = samples([300_000, 315_000, 1_500_000, 10_000], 2, 0);
    b[3][1].reading = 30_000;
    assert_eq!(
        get_motor_alerts(0, &b, 2, 0),
        vec![alert(0, 0, MotorFailure::PowerFailure), alert(1000, 0, MotorFailure::PowerFailure)]
    );
}

#[test]
fn sample_instants_cover_the_run() {
    assert_eq!(sample_times(1000, 3000, 1000), vec![1000, 2000, 3000]);
    assert_eq!(sample_times(1000, 3001, 1000), vec![1000, 2000, 3000, 4000]);
    assert_eq!(sample_times(5, 0, 10), Vec::<u64>::new());
    assert_eq!(sample_times(0, 10, u64::MAX), vec![0]);
}
