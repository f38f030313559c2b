//! The streaming-SQL topology of the SQL model, as the commands that set up
//! one motor: a source per sensor on its own TCP port, a windowed average
//! per sensor, joins that align the four averages on the window start, and
//! an in-memory queue that the row reader polls.
use vstd::prelude::*;
use vstd::string::*;

use crate::text::{decimal, push_decimal};

verus! {

/// The window clause shared by every windowed query: windows of `size` ms
/// that slide by `hop` ms.
pub open spec fn window_clause(size: nat, hop: nat) -> Seq<char> {
    " SLIDING WINDOW DURATION_MILLIS("@ + decimal(size) + "), DURATION_MILLIS("@ + decimal(hop)
        + "), DURATION_MILLIS(0);"@
}

pub open spec fn tag(m: nat, j: nat) -> Seq<char> {
    decimal(m) + "_"@ + decimal(j)
}

pub open spec fn sink_stream_command(m: nat) -> Seq<char> {
    "CREATE SINK STREAM motor_averages_"@ + decimal(m)
        + " (min_ts TIMESTAMP NOT NULL ROWTIME, motor_id INTEGER NOT NULL, temperature_difference FLOAT, rotational_speed FLOAT, power FLOAT, torque FLOAT);"@
}

pub open spec fn source_stream_command(m: nat, j: nat) -> Seq<char> {
    "CREATE SOURCE STREAM sensor_data_"@ + tag(m, j)
        + " (ts TIMESTAMP NOT NULL ROWTIME, sensor_id INTEGER NOT NULL, reading FLOAT NOT NULL);"@
}

pub open spec fn source_reader_command(m: nat, j: nat, port: nat) -> Seq<char> {
    "CREATE SOURCE READER sensor_data_reader_"@ + tag(m, j) + " FOR sensor_data_"@ + tag(m, j)
        + " TYPE NET_SERVER OPTIONS (PROTOCOL 'TCP', PORT '"@ + decimal(port) + "');"@
}

pub open spec fn average_stream_command(m: nat, j: nat) -> Seq<char> {
    "CREATE STREAM sensor_average_"@ + tag(m, j)
        + " (min_ts TIMESTAMP NOT NULL ROWTIME, sensor_id INTEGER NOT NULL, avg_reading FLOAT NOT NULL);"@
}

pub open spec fn average_pump_command(m: nat, j: nat, size: nat, hop: nat) -> Seq<char> {
    let s = tag(m, j);
    "CREATE PUMP pump_sensor_average_"@ + s + " AS INSERT INTO sensor_average_"@ + s
        + " (min_ts, sensor_id, avg_reading) SELECT STREAM FLOOR_TIME(sensor_data_"@ + s + ".ts, DURATION_MILLIS("@
        + decimal(size) + ")) AS min_ts, sensor_data_"@ + s + ".sensor_id AS sensor_id, AVG(sensor_data_"@ + s
        + ".reading) AS avg_reading FROM sensor_data_"@ + s + " GROUP BY min_ts, sensor_id"@ + window_clause(
        size,
        hop,
    )
}

pub open spec fn temperature_stream_command(m: nat) -> Seq<char> {
    "CREATE STREAM sensor_data_joined_"@ + decimal(m)
        + "_0_1 (min_ts TIMESTAMP NOT NULL ROWTIME, motor_id INTEGER NOT NULL, temperature_difference FLOAT);"@
}

/// Joins air and process temperature into their difference.
pub open spec fn temperature_pump_command(m: nat, size: nat, hop: nat) -> Seq<char> {
    let d = decimal(m);
    "CREATE PUMP sensor_join_values_"@ + d + "_0_1 AS INSERT INTO sensor_data_joined_"@ + d
        + "_0_1 (min_ts, motor_id, temperature_difference) SELECT STREAM sensor_average_"@ + d + "_0.min_ts, "@ + d
        + ", sensor_average_"@ + d + "_0.avg_reading + -sensor_average_"@ + d + "_1.avg_reading FROM sensor_average_"@
        + d + "_0 LEFT OUTER JOIN sensor_average_"@ + d + "_1 ON sensor_average_"@ + d
        + "_0.min_ts = sensor_average_"@ + d + "_1.min_ts"@ + window_clause(size, hop)
}

pub open spec fn mechanics_stream_command(m: nat) -> Seq<char> {
    "CREATE STREAM sensor_data_joined_"@ + decimal(m)
        + "_2_3 (min_ts TIMESTAMP NOT NULL ROWTIME, motor_id INTEGER NOT NULL, rotational_speed FLOAT, power FLOAT, torque FLOAT);"@
}

/// Joins rotational speed and torque; the power is their product times
/// 2π / 60, in watts.
pub open spec fn mechanics_pump_command(m: nat, size: nat, hop: nat) -> Seq<char> {
    let d = decimal(m);
    "CREATE PUMP sensor_join_values_"@ + d + "_2_3 AS INSERT INTO sensor_data_joined_"@ + d
        + "_2_3 (min_ts, motor_id, rotational_speed, power, torque) SELECT STREAM sensor_average_"@ + d
        + "_2.min_ts, "@ + d + ", sensor_average_"@ + d + "_2.avg_reading, sensor_average_"@ + d
        + "_2.avg_reading * sensor_average_"@ + d + "_3.avg_reading * 0.10471975511965977, sensor_average_"@ + d
        + "_3.avg_reading FROM sensor_average_"@ + d + "_2 LEFT OUTER JOIN sensor_average_"@ + d
        + "_3 ON sensor_average_"@ + d + "_2.min_ts = sensor_average_"@ + d + "_3.min_ts"@ + window_clause(size, hop)
}

pub open spec fn motor_pump_command(m: nat, size: nat, hop: nat) -> Seq<char> {
    let d = decimal(m);
    "CREATE PUMP window_avg_values_"@ + d + " AS INSERT INTO motor_averages_"@ + d
        + " (min_ts, motor_id, temperature_difference, rotational_speed, power, torque) SELECT STREAM sensor_data_joined_"@
        + d + "_0_1.min_ts, "@ + d + ", sensor_data_joined_"@ + d + "_0_1.temperature_difference, sensor_data_joined_"@
        + d + "_2_3.rotational_speed, sensor_data_joined_"@ + d + "_2_3.power, sensor_data_joined_"@ + d
        + "_2_3.torque FROM sensor_data_joined_"@ + d + "_0_1 LEFT OUTER JOIN sensor_data_joined_"@ + d
        + "_2_3 ON sensor_data_joined_"@ + d + "_0_1.min_ts = sensor_data_joined_"@ + d + "_2_3.min_ts"@
        + window_clause(size, hop)
}

pub open spec fn sink_writer_command(m: nat) -> Seq<char> {
    "CREATE SINK WRITER queue_writer_"@ + decimal(m) + " FOR motor_averages_"@ + decimal(m)
        + " TYPE IN_MEMORY_QUEUE OPTIONS (NAME 'motor_averages_"@ + decimal(m) + "');"@
}

/// The name of the queue that holds motor `m`'s joined rows.
pub open spec fn queue_name(m: nat) -> Seq<char> {
    "motor_averages_"@ + decimal(m)
}

/// The four commands that set up sensor `j` of motor `m`, read on `port`.
pub open spec fn sensor_commands(m: nat, j: nat, port: nat, size: nat, hop: nat) -> Seq<Seq<char>> {
    seq![
        source_stream_command(m, j),
        source_reader_command(m, j, port),
        average_stream_command(m, j),
        average_pump_command(m, j, size, hop),
    ]
}

/// Every command that sets up motor `m`, whose sensor `j` is read on port
/// `first_port + 4 m + j`.
pub open spec fn motor_commands(m: nat, first_port: nat, size: nat, hop: nat) -> Seq<Seq<char>> {
    seq![sink_stream_command(m)] + sensor_commands(m, 0, first_port + 4 * m, size, hop) + sensor_commands(
        m,
        1,
        first_port + 4 * m + 1,
        size,
        hop,
    ) + sensor_commands(m, 2, first_port + 4 * m + 2, size, hop) + sensor_commands(
        m,
        3,
        first_port + 4 * m + 3,
        size,
        hop,
    ) + seq![
        temperature_stream_command(m),
        temperature_pump_command(m, size, hop),
        mechanics_stream_command(m),
        mechanics_pump_command(m, size, hop),
        motor_pump_command(m, size, hop),
        sink_writer_command(m),
    ]
}

fn push_window_clause(out: &mut String, size: u64, hop: u64)
    ensures
        final(out)@ == old(out)@ + window_clause(size as nat, hop as nat),
{
    out.append(" SLIDING WINDOW DURATION_MILLIS(");
    push_decimal(out, size);
    out.append("), DURATION_MILLIS(");
    push_decimal(out, hop);
    out.append("), DURATION_MILLIS(0);");
    assert(final(out)@ =~= old(out)@ + window_clause(size as nat, hop as nat));
}

fn push_tag(out: &mut String, m: u64, j: u64)
    ensures
        final(out)@ == old(out)@ + tag(m as nat, j as nat),
{
    push_decimal(out, m);
    out.append("_");
    push_decimal(out, j);
    assert(final(out)@ =~= old(out)@ + tag(m as nat, j as nat));
}

/// The name of the queue that holds motor `motor_id`'s joined rows.
pub fn motor_queue_name(motor_id: u64) -> (r: String)
    ensures
        r@ == queue_name(motor_id as nat),
{
    let mut out = String::from_str("motor_averages_");
    push_decimal(&mut out, motor_id);
    out
}

fn sensor_setup(out: &mut Vec<String>, m: u64, j: u64, port: u64, size: u64, hop: u64)
    ensures
        final(out)@.map_values(|s: String| s@) == old(out)@.map_values(|s: String| s@) + sensor_commands(
            m as nat,
            j as nat,
            port as nat,
            size as nat,
            hop as nat,
        ),
{
    let ghost before = out@;
    let mut c = String::from_str("CREATE SOURCE STREAM sensor_data_");
    push_tag(&mut c, m, j);
    c.append(" (ts TIMESTAMP NOT NULL ROWTIME, sensor_id INTEGER NOT NULL, reading FLOAT NOT NULL);");
    assert(c@ =~= source_stream_command(m as nat, j as nat));
    out.push(c);

    let mut c = String::from_str("CREATE SOURCE READER sensor_data_reader_");
    push_tag(&mut c, m, j);
    c.append(" FOR sensor_data_");
    push_tag(&mut c, m, j);
    c.append(" TYPE NET_SERVER OPTIONS (PROTOCOL 'TCP', PORT '");
    push_decimal(&mut c, port);
    c.append("');");
    assert(c@ =~= source_reader_command(m as nat, j as nat, port as nat));
    out.push(c);

    let mut c = String::from_str("CREATE STREAM sensor_average_");
    push_tag(&mut c, m, j);
    c.append(" (min_ts TIMESTAMP NOT NULL ROWTIME, sensor_id INTEGER NOT NULL, avg_reading FLOAT NOT NULL);");
    assert(c@ =~= average_stream_command(m as nat, j as nat));
    out.push(c);

    let mut c = String::from_str("CREATE PUMP pump_sensor_average_");
    push_tag(&mut c, m, j);
    c.append(" AS INSERT INTO sensor_average_");
    push_tag(&mut c, m, j);
    c.append(" (min_ts, sensor_id, avg_reading) SELECT STREAM FLOOR_TIME(sensor_data_");
    push_tag(&mut c, m, j);
    c.append(".ts, DURATION_MILLIS(");
    push_decimal(&mut c, size);
    c.append(")) AS min_ts, sensor_data_");
    push_tag(&mut c, m, j);
    c.append(".sensor_id AS sensor_id, AVG(sensor_data_");
    push_tag(&mut c, m, j);
    c.append(".reading) AS avg_reading FROM sensor_data_");
    push_tag(&mut c, m, j);
    c.append(" GROUP BY min_ts, sensor_id");
    push_window_clause(&mut c, size, hop);
    assert(c@ =~= average_pump_command(m as nat, j as nat, size as nat, hop as nat));
    out.push(c);
    assert(out@.map_values(|s: String| s@) =~= before.map_values(|s: String| s@) + sensor_commands(
        m as nat,
        j as nat,
        port as nat,
        size as nat,
        hop as nat,
    ));
}

fn joined_setup(out: &mut Vec<String>, m: u64, size: u64, hop: u64)
    ensures
        final(out)@.map_values(|s: String| s@) == old(out)@.map_values(|s: String| s@) + seq![
            temperature_stream_command(m as nat),
            temperature_pump_command(m as nat, size as nat, hop as nat),
            mechanics_stream_command(m as nat),
            mechanics_pump_command(m as nat, size as nat, hop as nat),
            motor_pump_command(m as nat, size as nat, hop as nat),
            sink_writer_command(m as nat),
        ],
{
    let ghost before = out@;
    let mut c = String::from_str("CREATE STREAM sensor_data_joined_");
    push_decimal(&mut c, m);
    c.append("_0_1 (min_ts TIMESTAMP NOT NULL ROWTIME, motor_id INTEGER NOT NULL, temperature_difference FLOAT);");
    assert(c@ =~= temperature_stream_command(m as nat));
    out.push(c);

    let mut c = String::from_str("CREATE PUMP sensor_join_values_");
    push_decimal(&mut c, m);
    c.append("_0_1 AS INSERT INTO sensor_data_joined_");
    push_decimal(&mut c, m);
    c.append("_0_1 (min_ts, motor_id, temperature_difference) SELECT STREAM sensor_average_");
    push_decimal(&mut c, m);
    c.append("_0.min_ts, ");
    push_decimal(&mut c, m);
    c.append(", sensor_average_");
    push_decimal(&mut c, m);
    c.append("_0.avg_reading + -sensor_average_");
    push_decimal(&mut c, m);
    c.append("_1.avg_reading FROM sensor_average_");
    push_decimal(&mut c, m);
    c.append("_0 LEFT OUTER JOIN sensor_average_");
    push_decimal(&mut c, m);
    c.append("_1 ON sensor_average_");
    push_decimal(&mut c, m);
    c.append("_0.min_ts = sensor_average_");
    push_decimal(&mut c, m);
    c.append("_1.min_ts");
    push_window_clause(&mut c, size, hop);
    assert(c@ =~= temperature_pump_command(m as nat, size as nat, hop as nat));
    out.push(c);

    let mut c = String::from_str("CREATE STREAM sensor_data_joined_");
    push_decimal(&mut c, m);
    c.append("_2_3 (min_ts TIMESTAMP NOT NULL ROWTIME, motor_id INTEGER NOT NULL, rotational_speed FLOAT, power FLOAT, torque FLOAT);");
    assert(c@ =~= mechanics_stream_command(m as nat));
    out.push(c);

    let mut c = String::from_str("CREATE PUMP sensor_join_values_");
    push_decimal(&mut c, m);
    c.append("_2_3 AS INSERT INTO sensor_data_joined_");
    push_decimal(&mut c, m);
    c.append("_2_3 (min_ts, motor_id, rotational_speed, power, torque) SELECT STREAM sensor_average_");
    push_decimal(&mut c, m);
    c.append("_2.min_ts, ");
    push_decimal(&mut c, m);
    c.append(", sensor_average_");
    push_decimal(&mut c, m);
    c.append("_2.avg_reading, sensor_average_");
    push_decimal(&mut c, m);
    c.append("_2.avg_reading * sensor_average_");
    push_decimal(&mut c, m);
    c.append("_3.avg_reading * 0.10471975511965977, sensor_average_");
    push_decimal(&mut c, m);
    c.append("_3.avg_reading FROM sensor_average_");
    push_decimal(&mut c, m);
    c.append("_2 LEFT OUTER JOIN sensor_average_");
    push_decimal(&mut c, m);
    c.append("_3 ON sensor_average_");
    push_decimal(&mut c, m);
    c.append("_2.min_ts = sensor_average_");
    push_decimal(&mut c, m);
    c.append("_3.min_ts");
    push_window_clause(&mut c, size, hop);
    assert(c@ =~= mechanics_pump_command(m as nat, size as nat, hop as nat));
    out.push(c);

    let mut c = String::from_str("CREATE PUMP window_avg_values_");
    push_decimal(&mut c, m);
    c.append(" AS INSERT INTO motor_averages_");
    push_decimal(&mut c, m);
    c.append(" (min_ts, motor_id, temperature_difference, rotational_speed, power, torque) SELECT STREAM sensor_data_joined_");
    push_decimal(&mut c, m);
    c.append("_0_1.min_ts, ");
    push_decimal(&mut c, m);
    c.append(", sensor_data_joined_");
    push_decimal(&mut c, m);
    c.append("_0_1.temperature_difference, sensor_data_joined_");
    push_decimal(&mut c, m);
    c.append("_2_3.rotational_speed, sensor_data_joined_");
    push_decimal(&mut c, m);
    c.append("_2_3.power, sensor_data_joined_");
    push_decimal(&mut c, m);
    c.append("_2_3.torque FROM sensor_data_joined_");
    push_decimal(&mut c, m);
    c.append("_0_1 LEFT OUTER JOIN sensor_data_joined_");
    push_decimal(&mut c, m);
    c.append("_2_3 ON sensor_data_joined_");
    push_decimal(&mut c, m);
    c.append("_0_1.min_ts = sensor_data_joined_");
    push_decimal(&mut c, m);
    c.append("_2_3.min_ts");
    push_window_clause(&mut c, size, hop);
    assert(c@ =~= motor_pump_command(m as nat, size as nat, hop as nat));
    out.push(c);

    let mut c = String::from_str("CREATE SINK WRITER queue_writer_");
    push_decimal(&mut c, m);
    c.append(" FOR motor_averages_");
    push_decimal(&mut c, m);
    c.append(" TYPE IN_MEMORY_QUEUE OPTIONS (NAME 'motor_averages_");
    push_decimal(&mut c, m);
    c.append("');");
    assert(c@ =~= sink_writer_command(m as nat));
    out.push(c);
    assert(out@.map_values(|s: String| s@) =~= before.map_values(|s: String| s@) + seq![
        temperature_stream_command(m as nat),
        temperature_pump_command(m as nat, size as nat, hop as nat),
        mechanics_stream_command(m as nat),
        mechanics_pump_command(m as nat, size as nat, hop as nat),
        motor_pump_command(m as nat, size as nat, hop as nat),
        sink_writer_command(m as nat),
    ]);
}

/// The commands that set up motor `motor_id`, in the order the engine needs
/// them: its sink stream; for each sensor `j`, a source read on port
/// `first_port + 4 motor_id + j` and its windowed average; the joins; and
/// the queue writer.
pub fn setup_processing_pipeline(motor_id: u64, first_port: u64, window_size_ms: u64, window_sampling_interval_ms: u64) -> (r: Vec<String>)
    requires
        first_port + 4 * motor_id + 3 <= 0xffff,
    ensures
        r@.map_values(|s: String| s@) == motor_commands(
            motor_id as nat,
            first_port as nat,
            window_size_ms as nat,
            window_sampling_interval_ms as nat,
        ),
{
    let mut out: Vec<String> = Vec::new();
    let mut c = String::from_str("CREATE SINK STREAM motor_averages_");
    push_decimal(&mut c, motor_id);
    c.append(" (min_ts TIMESTAMP NOT NULL ROWTIME, motor_id INTEGER NOT NULL, temperature_difference FLOAT, rotational_speed FLOAT, power FLOAT, torque FLOAT);");
    out.push(c);
    let base = first_port + 4 * motor_id;
    sensor_setup(&mut out, motor_id, 0, base, window_size_ms, window_sampling_interval_ms);
    sensor_setup(&mut out, motor_id, 1, base + 1, window_size_ms, window_sampling_interval_ms);
    sensor_setup(&mut out, motor_id, 2, base + 2, window_size_ms, window_sampling_interval_ms);
    sensor_setup(&mut out, motor_id, 3, base + 3, window_size_ms, window_sampling_interval_ms);
    joined_setup(&mut out, motor_id, window_size_ms, window_sampling_interval_ms);
    assert(out@.map_values(|s: String| s@) =~= motor_commands(
        motor_id as nat,
        first_port as nat,
        window_size_ms as nat,
        window_sampling_interval_ms as nat,
    ));
    out
}

} // verus!
