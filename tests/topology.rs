use motor_monitor::sql::{row_timestamp, timestamp_from_millis};
use motor_monitor::topology::{motor_queue_name, setup_processing_pipeline};

#[test]
fn pipeline_commands_of_one_motor() {
    let commands = setup_processing_pipeline(2, 9000, 3000, 1000);
    assert_eq!(commands.len(), 23);
    assert_eq!(
        commands[0],
        "CREATE SINK STREAM motor_averages_2 (min_ts TIMESTAMP NOT NULL ROWTIME, motor_id INTEGER NOT NULL, \
         temperature_difference FLOAT, rotational_speed FLOAT, power FLOAT, torque FLOAT);"
    );
    assert_eq!(
        commands[6],
        "CREATE SOURCE READER sensor_data_reader_2_1 FOR sensor_data_2_1 TYPE NET_SERVER OPTIONS \
         (PROTOCOL 'TCP', PORT '9009');"
    );
    assert_eq!(
        commands[4],
        "CREATE PUMP pump_sensor_average_2_0 AS INSERT INTO sensor_average_2_0 (min_ts, sensor_id, avg_reading) \
         SELECT STREAM FLOOR_TIME(sensor_data_2_0.ts, DURATION_MILLIS(3000)) AS min_ts, sensor_data_2_0.sensor_id \
         AS sensor_id, AVG(sensor_data_2_0.reading) AS avg_reading FROM sensor_data_2_0 GROUP BY min_ts, sensor_id \
         SLIDING WINDOW DURATION_MILLIS(3000), DURATION_MILLIS(1000), DURATION_MILLIS(0);"
    );
    assert_eq!(
        commands[22],
        "CREATE SINK WRITER queue_writer_2 FOR motor_averages_2 TYPE IN_MEMORY_QUEUE OPTIONS (NAME 'motor_averages_2');"
    );
    assert!(commands[20].contains("* 0.10471975511965977"));
    assert_eq!(motor_queue_name(2), "motor_averages_2");
    assert_eq!(motor_queue_name(10), "motor_averages_10");
}

#[test]
fn row_timestamps_parse_as_utc_milliseconds() {
    assert_eq!(row_timestamp("2023-01-02 03:04:05.006000000"), Some(1_672_628_645_006));
    assert_eq!(row_timestamp("1970-01-01 00:00:01.500000000"), Some(1_500));
    assert_eq!(row_timestamp("1969-12-31 23:59:59.000000000"), None);
    assert_eq!(row_timestamp("yesterday"), None);
    assert_eq!(timestamp_from_millis(Some(-1)), None);
    assert_eq!(timestamp_from_millis(Some(7)), Some(7));
}
