use motor_monitor::records::MotorFailure;
use motor_monitor::rules::{
    power_from, relevant_data_indicates_failure, sensor_data_indicates_failure, strain_from,
};

#[test]
fn heat_dissipation_scenario() {
    // 300.0 K and 300.0 K, 1000 rpm, 40 Nm
    let r = sensor_data_indicates_failure(300_000, 300_000, 1_000_000, 40_000, 0);
    assert_eq!(r, Some(MotorFailure::HeatDissipationFailure));
}

#[test]
fn power_low_scenario() {
    // power = 10 Nm at 500 rpm, about 523.6 W
    let r = sensor_data_indicates_failure(298_000, 308_500, 500_000, 10_000, 0);
    assert_eq!(r, Some(MotorFailure::PowerFailure));
    assert_eq!(power_from(10_000, 500_000), 523_598);
}

#[test]
fn power_high_scenario() {
    // 40 Nm at 3000 rpm, about 12566 W
    let r = sensor_data_indicates_failure(298_000, 308_500, 3_000_000, 40_000, 0);
    assert_eq!(r, Some(MotorFailure::PowerFailure));
    assert_eq!(power_from(40_000, 3_000_000), 12_566_370);
}

#[test]
fn overstrain_scenario() {
    // 40 Nm at 1500 rpm is about 6283 W; overstrain after 11000 / 40 = 275 s
    assert_eq!(power_from(40_000, 1_500_000), 6_283_185);
    assert_eq!(sensor_data_indicates_failure(298_000, 308_500, 1_500_000, 40_000, 274_000), None);
    assert_eq!(sensor_data_indicates_failure(298_000, 308_500, 1_500_000, 40_000, 275_000), None);
    assert_eq!(
        sensor_data_indicates_failure(298_000, 308_500, 1_500_000, 40_000, 276_000),
        Some(MotorFailure::OverstrainFailure)
    );
}

#[test]
fn boundary_power_scenario() {
    // 70 Nm at 1800 rpm is about 13195 W
    assert_eq!(
        sensor_data_indicates_failure(298_000, 308_500, 1_800_000, 70_000, 0),
        Some(MotorFailure::PowerFailure)
    );
}

#[test]
fn no_alert_scenario() {
    // gap 15 K, 1500 rpm, 30 Nm: about 4712 W, strain 9000 after 300 s
    assert_eq!(sensor_data_indicates_failure(300_000, 315_000, 1_500_000, 30_000, 300_000), None);
}

#[test]
fn strain_is_age_times_torque() {
    assert_eq!(strain_from(275_000, 40_000), 11_000_000);
    assert_eq!(strain_from(1_500, 2_000), 3_000);
    assert_eq!(strain_from(1, -1), -1);
}

#[test]
fn heat_wins_over_power_and_power_over_overstrain() {
    assert_eq!(
        relevant_data_indicates_failure(0, 1_000_000, 0, 1_000_000_000),
        Some(MotorFailure::HeatDissipationFailure)
    );
    assert_eq!(
        relevant_data_indicates_failure(10_000, 1_500_000, 0, 1_000_000_000),
        Some(MotorFailure::PowerFailure)
    );
    assert_eq!(
        relevant_data_indicates_failure(10_000, 1_500_000, 5_000_000, 1_000_000_000),
        Some(MotorFailure::OverstrainFailure)
    );
}

#[test]
fn rule_bounds_are_exact() {
    // a gap of exactly 8.6 K is not below the limit
    assert_eq!(relevant_data_indicates_failure(-8_600, 1_000_000, 5_000_000, 0), None);
    assert_eq!(
        relevant_data_indicates_failure(-8_599, 1_000_000, 5_000_000, 0),
        Some(MotorFailure::HeatDissipationFailure)
    );
    // 3500 W and 9000 W are inside the band
    assert_eq!(relevant_data_indicates_failure(10_000, 1_500_000, 3_500_000, 0), None);
    assert_eq!(relevant_data_indicates_failure(10_000, 1_500_000, 9_000_000, 0), None);
    assert_eq!(
        relevant_data_indicates_failure(10_000, 1_500_000, 9_000_001, 0),
        Some(MotorFailure::PowerFailure)
    );
}

#[test]
fn rule_is_repeatable() {
    let a = sensor_data_indicates_failure(298_000, 308_500, 1_500_000, 40_000, 300_000);
    let b = sensor_data_indicates_failure(298_000, 308_500, 1_500_000, 40_000, 300_000);
    assert_eq!(a, b);
}
