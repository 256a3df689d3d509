//! From temperatures to duties.

use radxa_penta_top_hat_rs::binary64::Binary64;
use radxa_penta_top_hat_rs::config::{FanConfig, FanCurveConfig, FanCurveTail};
use radxa_penta_top_hat_rs::decision::FanDecision;
use radxa_penta_top_hat_rs::fan::{duty_for_temperature, level_for_temperature, FanLevel};
use radxa_penta_top_hat_rs::pwm::Duty;
use radxa_penta_top_hat_rs::stabilizer::DutyStabilizer;

const SECOND: u128 = 1_000_000_000;

fn number(value: f64) -> Binary64 {
    Binary64::from_bits(value.to_bits())
}

fn fraction(duty: Duty) -> f64 {
    f64::from(duty.parts_per_million()) / 1_000_000.0
}

fn config() -> FanConfig {
    FanConfig {
        lv0: number(55.0),
        lv1: number(62.0),
        lv2: number(70.0),
        lv3: number(78.0),
    }
}

fn curve() -> FanCurveConfig {
    FanCurveConfig {
        enabled: true,
        duty0: 25,
        duty1: 50,
        duty2: 75,
        duty3: 90,
        tail: FanCurveTail::Extrapolate,
        max_duty: 100,
        hysteresis: 2,
        ramp_down: 5,
    }
}

fn tens() -> FanConfig {
    FanConfig {
        lv0: number(40.0),
        lv1: number(50.0),
        lv2: number(60.0),
        lv3: number(70.0),
    }
}

#[test]
fn maps_temperatures_to_step_levels() {
    assert_eq!(level_for_temperature(number(54.9), config()), FanLevel::Off);
    assert_eq!(level_for_temperature(number(55.0), config()), FanLevel::Lv0);
    assert_eq!(level_for_temperature(number(61.9), config()), FanLevel::Lv0);
    assert_eq!(level_for_temperature(number(62.0), config()), FanLevel::Lv1);
    assert_eq!(level_for_temperature(number(69.9), config()), FanLevel::Lv1);
    assert_eq!(level_for_temperature(number(70.0), config()), FanLevel::Lv2);
    assert_eq!(level_for_temperature(number(77.9), config()), FanLevel::Lv2);
    assert_eq!(level_for_temperature(number(78.0), config()), FanLevel::Lv3);
}

#[test]
fn preserves_upstream_active_low_duty_values() {
    assert_eq!(fraction(FanLevel::Off.active_low_duty()), 1.0);
    assert_eq!(fraction(FanLevel::Lv0.active_low_duty()), 0.75);
    assert_eq!(fraction(FanLevel::Lv1.active_low_duty()), 0.5);
    assert_eq!(fraction(FanLevel::Lv2.active_low_duty()), 0.25);
    assert_eq!(fraction(FanLevel::Lv3.active_low_duty()), 0.0);
}

#[test]
fn drive_level_can_raise_final_fan_level() {
    let drive_config = FanConfig {
        lv0: number(45.0),
        lv1: number(50.0),
        lv2: number(55.0),
        lv3: number(60.0),
    };
    let decision = FanDecision::from_temperatures(number(50.0), config(), Some(number(55.0)), drive_config);

    assert_eq!(decision.cpu_level, FanLevel::Off);
    assert_eq!(decision.drive_level, Some(FanLevel::Lv2));
    assert_eq!(decision.level, FanLevel::Lv2);
    assert_eq!(decision.duty_percent, 75);
}

#[test]
fn cpu_level_wins_when_it_is_higher() {
    let drive_config = FanConfig {
        lv0: number(45.0),
        lv1: number(50.0),
        lv2: number(55.0),
        lv3: number(60.0),
    };
    let decision = FanDecision::from_temperatures(number(70.0), config(), Some(number(46.0)), drive_config);

    assert_eq!(decision.cpu_level, FanLevel::Lv2);
    assert_eq!(decision.drive_level, Some(FanLevel::Lv0));
    assert_eq!(decision.level, FanLevel::Lv2);
}

#[test]
fn missing_drive_temperature_preserves_cpu_only_behavior() {
    let decision = FanDecision::from_temperatures(number(62.0), config(), None, config());

    assert_eq!(decision.cpu_level, FanLevel::Lv1);
    assert_eq!(decision.drive_level, None);
    assert_eq!(decision.level, FanLevel::Lv1);
    assert_eq!(decision.duty_percent, 50);
}

#[test]
fn higher_demand_decides() {
    let decision = FanDecision::from_temperatures_with_curve(
        number(45.0),
        tens(),
        Some(number(55.0)),
        tens(),
        curve(),
    );
    assert_eq!(decision.cpu_duty_percent, 38);
    assert_eq!(decision.drive_duty_percent, Some(63));
    assert_eq!(decision.duty_percent, 63);
    assert_eq!(decision.active_low_duty, 370_000);
    assert_eq!(decision.level, FanLevel::Lv1);
}

#[test]
fn curve_interpolates_between_its_points() {
    let duty = |celsius: f64| duty_for_temperature(number(celsius), tens(), curve());
    assert_eq!(duty(39.999), 0);
    assert_eq!(duty(40.0), 25);
    assert_eq!(duty(44.0), 35);
    assert_eq!(duty(50.0), 50);
    assert_eq!(duty(60.0), 75);
    assert_eq!(duty(64.0), 81);
    assert_eq!(duty(70.0), 90);
}

#[test]
fn tail_of_the_curve_rises_or_holds() {
    let steep = curve();
    let flat = FanCurveConfig {
        tail: FanCurveTail::Hold,
        ..steep
    };
    let low = FanCurveConfig {
        max_duty: 80,
        ..steep
    };
    assert_eq!(duty_for_temperature(number(74.0), tens(), steep), 96);
    assert_eq!(duty_for_temperature(number(500.0), tens(), steep), 100);
    assert_eq!(duty_for_temperature(number(500.0), tens(), flat), 90);
    assert_eq!(duty_for_temperature(number(500.0), tens(), low), 80);
    assert_eq!(duty_for_temperature(number(65.0), tens(), low), 80);
}

#[test]
fn failed_sensor_asks_for_the_maximum() {
    let low = FanCurveConfig {
        max_duty: 80,
        ..curve()
    };
    assert_eq!(duty_for_temperature(Binary64::nan(), tens(), low), 80);
    assert_eq!(
        duty_for_temperature(Binary64::nan(), tens(), FanCurveConfig::default()),
        100
    );
    assert_eq!(level_for_temperature(Binary64::nan(), tens()), FanLevel::Lv3);
    assert_eq!(
        level_for_temperature(number(f64::NEG_INFINITY), tens()),
        FanLevel::Off
    );
}

#[test]
fn steps_follow_the_level() {
    let steps = FanCurveConfig::default();
    for (celsius, duty) in [(39.0, 0), (40.0, 25), (59.9, 50), (60.0, 75), (99.0, 100)] {
        assert_eq!(duty_for_temperature(number(celsius), tens(), steps), duty);
    }
}

#[test]
fn small_fall_is_held_and_larger_fall_is_ramped() {
    let mut stabilizer = DutyStabilizer::default();
    let start = 1_000 * SECOND;
    assert_eq!(stabilizer.update(60, curve(), start), 60);
    assert_eq!(stabilizer.update(58, curve(), start + SECOND), 60);
    assert_eq!(stabilizer.update(40, curve(), start + 2 * SECOND), 55);
    assert_eq!(stabilizer.update(40, curve(), start + 2 * SECOND + SECOND / 2), 53);
    assert_eq!(stabilizer.update(40, curve(), start + 3 * SECOND), 50);
    assert_eq!(stabilizer.update(70, curve(), start + 3 * SECOND), 70);
    assert_eq!(stabilizer.update(0, curve(), start + 3 * SECOND), 0);
}

#[test]
fn fall_is_not_ramped_without_a_rate() {
    let free = FanCurveConfig {
        ramp_down: 0,
        ..curve()
    };
    let mut stabilizer = DutyStabilizer::default();
    assert_eq!(stabilizer.update(90, free, 0), 90);
    assert_eq!(stabilizer.update(30, free, 1), 30);
}

#[test]
fn stabilizer_honors_the_maximum() {
    let low = FanCurveConfig {
        max_duty: 80,
        ..curve()
    };
    let mut stabilizer = DutyStabilizer::default();
    assert_eq!(stabilizer.force(100, low, 0), 80);
    assert_eq!(stabilizer.update(95, low, SECOND), 80);
    assert_eq!(stabilizer.update(95, FanCurveConfig::default(), SECOND), 95);
    assert_eq!(stabilizer.update(94, FanCurveConfig::default(), SECOND), 94);
}

#[test]
fn long_pause_allows_any_fall() {
    let mut stabilizer = DutyStabilizer::default();
    assert_eq!(stabilizer.update(100, curve(), 0), 100);
    assert_eq!(stabilizer.update(10, curve(), u128::MAX), 10);
}
