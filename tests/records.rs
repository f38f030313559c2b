use motor_monitor::records::{
    get_motor_id, get_sensor_id, remaining_time, BenchmarkData, BenchmarkDataType, MotorFailure,
    RequestProcessingModel,
};

#[test]
fn benchmark_data_renders_as_csv() {
    let data = BenchmarkData {
        id: 0,
        time_spent_in_user_mode: 120,
        time_spent_in_kernel_mode: 45,
        children_time_spent_in_user_mode: 3,
        children_time_spent_in_kernel_mode: 10,
        peak_resident_set_size: 20480,
        peak_virtual_memory_size: 18446744073709551615,
        benchmark_data_type: BenchmarkDataType::MotorMonitor,
    };
    assert_eq!(data.to_csv_string(), "0,120,45,3,10,20480,18446744073709551615\n");
}

#[test]
fn request_processing_models_parse_and_print() {
    for (name, model) in [
        ("ReactiveStreaming", RequestProcessingModel::ReactiveStreaming),
        ("ClientServer", RequestProcessingModel::ClientServer),
        ("SpringQL", RequestProcessingModel::SpringQL),
        ("ObjectOriented", RequestProcessingModel::ObjectOriented),
    ] {
        assert_eq!(RequestProcessingModel::from_str(name), Ok(model));
        assert_eq!(model.to_string(), name);
    }
    assert_eq!(RequestProcessingModel::from_str("clientserver"), Err(()));
    assert_eq!(RequestProcessingModel::from_str(""), Err(()));
}

#[test]
fn motor_failures_parse_and_print() {
    assert_eq!(MotorFailure::from_str("PowerFailure"), Ok(MotorFailure::PowerFailure));
    assert_eq!(MotorFailure::OverstrainFailure.to_string(), "OverstrainFailure");
    assert_eq!(MotorFailure::from_str("Power"), Err(()));
}

#[test]
fn sensor_ids_split_into_motor_and_index() {
    assert_eq!(get_motor_id(13), 3);
    assert_eq!(get_sensor_id(13), 1);
    assert_eq!(get_motor_id(3), 0);
    assert_eq!(get_sensor_id(3), 3);
}

#[test]
fn remaining_time_saturates() {
    assert_eq!(remaining_time(1_000, 30_000, 11_000), 20_000);
    assert_eq!(remaining_time(1_000, 30_000, 31_000), 0);
    assert_eq!(remaining_time(1_000, 30_000, 500), 30_500);
}
