//! The failure rules shared by every request-processing model and the oracle.
use vstd::prelude::*;

use crate::records::MotorFailure;

verus! {

/// Largest magnitude of a reading, in thousandths: 10^11 units. Readings
/// are fixed-point integers, and this bound keeps every product the rules
/// form (two readings times the numerator of pi, a reading times an age in
/// ms, a sum of readings over any window) inside `i128`.
pub const MAX_READING: i64 = 100_000_000_000_000;

/// Heat dissipation fails below this temperature gap (8.6 K, in mK)...
pub const HEAT_GAP_LIMIT: i64 = 8_600;

/// ... together with a rotational speed below 1380 rpm (in thousandths).
pub const HEAT_SPEED_LIMIT: i64 = 1_380_000;

/// Lowest acceptable mechanical power: 3500 W, in mW.
pub const POWER_MIN: i128 = 3_500_000;

/// Highest acceptable mechanical power: 9000 W, in mW.
pub const POWER_MAX: i128 = 9_000_000;

/// Overstrain fails above 11000 N·m·s of strain, in thousandths.
pub const STRAIN_LIMIT: i128 = 11_000_000;

/// Pi as the fraction `PI_NUMERATOR / PI_DENOMINATOR`.
pub const PI_NUMERATOR: i128 = 3_141_592_654;

pub const PI_DENOMINATOR: i128 = 1_000_000_000;

pub open spec fn abs(x: int) -> int {
    if x < 0 { -x } else { x }
}

pub open spec fn reading_in_range(x: int) -> bool {
    -MAX_READING <= x <= MAX_READING
}

/// The heat-dissipation predicate on a temperature gap and a rotational speed.
pub open spec fn heat_dissipation_fails(temperature_difference: int, rotational_speed: int) -> bool {
    abs(temperature_difference) < HEAT_GAP_LIMIT && rotational_speed < HEAT_SPEED_LIMIT
}

/// The power predicate: the power lies outside `[POWER_MIN, POWER_MAX]`.
pub open spec fn power_fails(power: int) -> bool {
    power < POWER_MIN || power > POWER_MAX
}

/// The overstrain predicate.
pub open spec fn overstrain_fails(strain: int) -> bool {
    strain > STRAIN_LIMIT
}

/// Mechanical power in mW of a torque (thousandths of N·m) at a rotational
/// speed (thousandths of rpm): `torque · speed · 2π / 60`, rounded down.
pub open spec fn power_of(torque: int, rotational_speed: int) -> int {
    (torque * rotational_speed * 2 * PI_NUMERATOR) / (60 * PI_DENOMINATOR * 1000)
}

/// Strain in thousandths of N·m·s of a torque held for `age_ms`
/// milliseconds: `age · torque`, rounded down.
pub open spec fn strain_of(age_ms: int, torque: int) -> int {
    (age_ms * torque) / 1000
}

/// The rule on precomputed quantities; the first predicate that holds wins,
/// in the order heat dissipation, power, overstrain.
pub open spec fn failure_of(
    temperature_difference: int,
    rotational_speed: int,
    power: int,
    strain: int,
) -> Option<MotorFailure> {
    if heat_dissipation_fails(temperature_difference, rotational_speed) {
        Some(MotorFailure::HeatDissipationFailure)
    } else if power_fails(power) {
        Some(MotorFailure::PowerFailure)
    } else if overstrain_fails(strain) {
        Some(MotorFailure::OverstrainFailure)
    } else {
        None
    }
}

/// The rule on four averaged readings and the age of the motor's state.
pub open spec fn sensor_failure_of(
    air_temperature: int,
    process_temperature: int,
    rotational_speed: int,
    torque: int,
    age_ms: int,
) -> Option<MotorFailure> {
    failure_of(
        air_temperature - process_temperature,
        rotational_speed,
        power_of(torque, rotational_speed),
        strain_of(age_ms, torque),
    )
}

/// Floor division of a signed value by a positive one.
pub(crate) fn floor_div(a: i128, b: i128) -> (r: i128)
    requires
        b > 0,
    ensures
        r == a / b,
{
    if a >= 0 {
        let q = (a as u128) / (b as u128);
        proof {
            assert(q <= a) by (nonlinear_arith)
                requires q == (a as u128) / (b as u128), a >= 0, b > 0;
        }
        q as i128
    } else {
        let n = (-(a + 1)) as u128;
        let q = n / (b as u128);
        proof {
            assert(q <= n) by (nonlinear_arith)
                requires q == n / (b as u128), b > 0;
            lemma_floor_of_negative(a as int, b as int, n as int, q as int);
        }
        -(q as i128) - 1
    }
}

proof fn lemma_floor_of_negative(a: int, b: int, n: int, q: int)
    requires
        a < 0,
        b > 0,
        n == -(a + 1),
        q == n / b,
    ensures
        a / b == -q - 1,
{
    let r = n % b;
    assert(n == b * q + r && 0 <= r < b) by {
        vstd::arithmetic::div_mod::lemma_fundamental_div_mod(n, b);
    }
    // a = -n - 1 = b * (-q - 1) + (b - r - 1), with 0 <= b - r - 1 < b
    assert(a == (-q - 1) * b + (b - r - 1)) by (nonlinear_arith)
        requires n == b * q + r, a == -n - 1;
    vstd::arithmetic::div_mod::lemma_fundamental_div_mod_converse(a, b, -q - 1, b - r - 1);
}

/// Power in mW, `torque · speed · 2π / 60` rounded down.
pub fn power_from(torque: i64, rotational_speed: i64) -> (r: i128)
    requires
        reading_in_range(torque as int),
        reading_in_range(rotational_speed as int),
    ensures
        r == power_of(torque as int, rotational_speed as int),
{
    let t = torque as i128;
    let s = rotational_speed as i128;
    proof {
        assert(-10_000_000_000_000_000_000_000_000_000 <= t * s <= 10_000_000_000_000_000_000_000_000_000) by (nonlinear_arith)
            requires -100_000_000_000_000 <= t <= 100_000_000_000_000, -100_000_000_000_000 <= s <= 100_000_000_000_000;
    }
    let product = t * s;
    floor_div(product * 2 * PI_NUMERATOR, 60 * PI_DENOMINATOR * 1000)
}

/// Strain in thousandths of N·m·s, `age · torque` rounded down.
pub fn strain_from(age_ms: u64, torque: i64) -> (r: i128)
    requires
        reading_in_range(torque as int),
    ensures
        r == strain_of(age_ms as int, torque as int),
{
    let a = age_ms as i128;
    let t = torque as i128;
    proof {
        assert(-2_000_000_000_000_000_000_000_000_000_000_000 <= a * t <= 2_000_000_000_000_000_000_000_000_000_000_000) by (nonlinear_arith)
            requires 0 <= a <= 0xffff_ffff_ffff_ffff, -100_000_000_000_000 <= t <= 100_000_000_000_000;
    }
    floor_div(a * t, 1000)
}

/// Evaluates the rule on precomputed quantities: a temperature gap, a
/// rotational speed, a power in mW and a strain.
pub fn relevant_data_indicates_failure(
    temperature_difference: i64,
    rotational_speed: i64,
    power: i128,
    strain: i128,
) -> (r: Option<MotorFailure>)
    ensures
        r == failure_of(temperature_difference as int, rotational_speed as int, power as int, strain as int),
{
    let gap_small = if temperature_difference < 0 {
        temperature_difference > -HEAT_GAP_LIMIT
    } else {
        temperature_difference < HEAT_GAP_LIMIT
    };
    if gap_small && rotational_speed < HEAT_SPEED_LIMIT {
        Some(MotorFailure::HeatDissipationFailure)
    } else if power < POWER_MIN || power > POWER_MAX {
        Some(MotorFailure::PowerFailure)
    } else if strain > STRAIN_LIMIT {
        Some(MotorFailure::OverstrainFailure)
    } else {
        None
    }
}

/// Evaluates the rule on four averaged readings and the age of the motor's
/// state in milliseconds.
pub fn sensor_data_indicates_failure(
    air_temperature: i64,
    process_temperature: i64,
    rotational_speed: i64,
    torque: i64,
    age_ms: u64,
) -> (r: Option<MotorFailure>)
    requires
        reading_in_range(air_temperature as int),
        reading_in_range(process_temperature as int),
        reading_in_range(rotational_speed as int),
        reading_in_range(torque as int),
    ensures
        r == sensor_failure_of(
            air_temperature as int,
            process_temperature as int,
            rotational_speed as int,
            torque as int,
            age_ms as int,
        ),
{
    let power = power_from(torque, rotational_speed);
    let strain = strain_from(age_ms, torque);
    relevant_data_indicates_failure(air_temperature - process_temperature, rotational_speed, power, strain)
}

/// The rule is a function of its inputs alone: equal inputs give equal
/// verdicts.
pub proof fn lemma_rule_is_pure(
    a: (int, int, int, int),
    b: (int, int, int, int),
)
    requires
        a == b,
    ensures
        failure_of(a.0, a.1, a.2, a.3) == failure_of(b.0, b.1, b.2, b.3),
{
}

/// When the heat-dissipation predicate holds, heat dissipation is reported
/// whatever the other predicates say; when the power predicate holds and
/// heat dissipation does not, a power failure is reported even if the
/// strain is too high.
pub proof fn lemma_rule_precedence(
    temperature_difference: int,
    rotational_speed: int,
    power: int,
    strain: int,
)
    ensures
        heat_dissipation_fails(temperature_difference, rotational_speed) ==> failure_of(
            temperature_difference,
            rotational_speed,
            power,
            strain,
        ) == Some(MotorFailure::HeatDissipationFailure),
        !heat_dissipation_fails(temperature_difference, rotational_speed) && power_fails(power)
            ==> failure_of(temperature_difference, rotational_speed, power, strain) == Some(
            MotorFailure::PowerFailure,
        ),
{
}

} // verus!
