use motor_monitor::actor::{MotorMonitor, Sensor, SensorAverage};
use motor_monitor::motor::ClientServerMonitor;
use motor_monitor::oracle::{get_alert_failures, get_expected_alerts};
use motor_monitor::reactive::window_alerts;
use motor_monitor::records::{Alert, MotorFailure, SensorMessage};
use motor_monitor::sql::{MotorData, RowReader};
use motor_monitor::window::Sample;

fn readings_at(motor: u32, values: [i64; 4], t: u64) -> Vec<SensorMessage> {
    (0..4)
        .map(|j| SensorMessage { reading: values[j as usize], sensor_id: motor * 4 + j, timestamp: t })
        .collect()
}

fn run_client_server(values: [i64; 4], seconds: u64) -> Vec<Alert> {
    let mut monitor = ClientServerMonitor::new(1, 3000, 0);
    let mut alerts = vec![];
    for k in 0..seconds {
        let t = k * 1000;
        for m in readings_at(0, values, t) {
            if let Some(a) = monitor.handle_message(m, t).unwrap() {
                alerts.push(a);
            }
        }
    }
    alerts
}

#[test]
fn client_server_heat_dissipation() {
    let alerts = run_client_server([300_000, 300_000, 1_000_000, 40_000], 3);
    assert_eq!(alerts.len(), 3);
    assert_eq!(alerts[0], Alert { time: 0, motor_id: 0, failure: MotorFailure::HeatDissipationFailure });
    assert_eq!(alerts[2].time, 2000);
}

#[test]
fn client_server_power_low_and_high() {
    let low = run_client_server([298_000, 308_500, 500_000, 10_000], 1);
    assert_eq!(low[0].failure, MotorFailure::PowerFailure);
    let high = run_client_server([298_000, 308_500, 3_000_000, 40_000], 1);
    assert_eq!(high[0].failure, MotorFailure::PowerFailure);
}

#[test]
fn client_server_overstrain_then_reset() {
    let alerts = run_client_server([298_000, 308_500, 1_500_000, 40_000], 600);
    let expected: Vec<Alert> = [276_000, 552_000]
        .iter()
        .map(|t| Alert { time: *t, motor_id: 0, failure: MotorFailure::OverstrainFailure })
        .collect();
    assert_eq!(alerts, expected);
}

#[test]
fn client_server_no_alert() {
    assert!(run_client_server([300_000, 315_000, 1_500_000, 30_000], 300).is_empty());
}

#[test]
fn client_server_waits_for_all_four_sensors() {
    let mut monitor = ClientServerMonitor::new(1, 3000, 0);
    let ms = readings_at(0, [300_000, 300_000, 1_000_000, 40_000], 5000);
    for m in &ms[..3] {
        assert_eq!(monitor.handle_message(*m, 5000), Ok(None));
    }
    assert!(monitor.handle_message(ms[3], 5000).unwrap().is_some());
    // after the reset the windows start empty again
    assert_eq!(monitor.handle_message(ms[0], 6000), Ok(None));
}

#[test]
fn client_server_evicts_old_samples() {
    let mut monitor = ClientServerMonitor::new(1, 3000, 0);
    // a heat failure in the first samples only
    for m in readings_at(0, [300_000, 300_000, 1_000_000, 40_000], 0).into_iter().take(3) {
        assert_eq!(monitor.handle_message(m, 0), Ok(None));
    }
    // torque arrives 5 s later: the other windows are empty by then
    let late = SensorMessage { reading: 40_000, sensor_id: 3, timestamp: 5000 };
    assert_eq!(monitor.handle_message(late, 5000), Ok(None));
}

#[test]
fn client_server_refuses_unknown_motor() {
    let mut monitor = ClientServerMonitor::new(2, 3000, 0);
    let m = SensorMessage { reading: 1, sensor_id: 8, timestamp: 0 };
    assert_eq!(monitor.handle_message(m, 0), Err(()));
}

#[test]
fn sensor_actor_publishes_every_interval() {
    let mut sensor = Sensor::build(3000, 1000, 0);
    let m = |r: i64, t: u64| SensorMessage { reading: r, sensor_id: 6, timestamp: t };
    assert_eq!(sensor.handle_sensor_message(m(10, 100), 100), None);
    assert_eq!(
        sensor.handle_sensor_message(m(20, 1000), 1000),
        Some(SensorAverage { average: 15, number_of_values: 2, sensor_id: 6, timestamp: 1000 })
    );
    assert_eq!(sensor.handle_sensor_message(m(30, 1500), 1500), None);
    // at 5000 only the sample of 2500 onwards is live
    assert_eq!(
        sensor.handle_sensor_message(m(41, 5000), 5000),
        Some(SensorAverage { average: 41, number_of_values: 1, sensor_id: 6, timestamp: 5000 })
    );
}

#[test]
fn motor_actor_alerts_once_all_slots_are_filled() {
    let mut motor = MotorMonitor::build(2, 0);
    let avg = |v: i64, j: u32, t: u64| SensorAverage { average: v, number_of_values: 3, sensor_id: 8 + j, timestamp: t };
    assert_eq!(motor.receive(avg(298_000, 0, 10), 10), None);
    assert_eq!(motor.receive(avg(308_500, 1, 30), 30), None);
    assert_eq!(motor.receive(avg(500_000, 2, 20), 20), None);
    assert_eq!(
        motor.receive(avg(10_000, 3, 15), 40),
        Some(Alert { time: 30, motor_id: 2, failure: MotorFailure::PowerFailure })
    );
    // the slots were cleared
    assert_eq!(motor.receive(avg(10_000, 3, 50), 50), None);
}

#[test]
fn reactive_window_groups_by_sensor_and_motor() {
    let mut messages = readings_at(0, [300_000, 300_000, 1_000_000, 40_000], 1000);
    messages.extend(readings_at(1, [298_000, 308_500, 1_500_000, 40_000], 1000));
    messages.push(SensorMessage { reading: 302_000, sensor_id: 0, timestamp: 1500 });
    let mut ages = vec![0u64, 0u64];
    let alerts = window_alerts(&messages, &mut ages, 2000);
    assert_eq!(alerts, vec![Alert { time: 1500, motor_id: 0, failure: MotorFailure::HeatDissipationFailure }]);
    assert_eq!(ages, vec![2000, 0]);
    // motor 1 strains after 275 s
    let alerts = window_alerts(&messages, &mut ages, 276_000);
    assert_eq!(alerts.len(), 2);
    assert_eq!(alerts[1], Alert { time: 1000, motor_id: 1, failure: MotorFailure::OverstrainFailure });
}

#[test]
fn sql_reader_skips_repeated_rows() {
    let mut reader = RowReader::new(0);
    let row = MotorData {
        timestamp: 3000,
        motor_id: 4,
        temperature_difference: Some(-10_500),
        rotational_speed: Some(500_000),
        power: Some(523_598),
        torque: Some(10_000),
    };
    assert_eq!(
        reader.handle_row(row, 3500),
        Some(Alert { time: 3000, motor_id: 4, failure: MotorFailure::PowerFailure })
    );
    assert_eq!(reader.handle_row(row, 4000), None);
    let partial = MotorData { timestamp: 4000, torque: None, ..row };
    assert_eq!(reader.handle_row(partial, 4000), None);
}

fn constant_samples(values: [i64; 4], n: u64) -> Vec<Vec<Sample>> {
    (0..4)
        .map(|j| (0..n).map(|k| Sample { timestamp: k * 1000, reading: values[j] }).collect())
        .collect()
}

#[test]
fn client_server_matches_the_oracle() {
    for values in [
        [300_000, 300_000, 1_000_000, 40_000],
        [298_000, 308_500, 500_000, 10_000],
        [298_000, 308_500, 1_500_000, 40_000],
        [300_000, 315_000, 1_500_000, 30_000],
    ] {
        let received = run_client_server(values, 600);
        let expected = get_expected_alerts(&vec![constant_samples(values, 600)], 3000, 1000, 0);
        assert_eq!(received.len(), expected.len());
        assert!(get_alert_failures(&received, &expected, 3000).is_empty());
    }
}
