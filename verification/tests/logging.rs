//! What is logged and when, and how duties are applied.

use radxa_penta_top_hat_rs::binary64::Binary64;
use radxa_penta_top_hat_rs::config::{FanConfig, FanCurveConfig};
use radxa_penta_top_hat_rs::control::{commanded_duty, validate_test_fan_duty};
use radxa_penta_top_hat_rs::cpu_log::CpuTempLogState;
use radxa_penta_top_hat_rs::decision::FanDecision;
use radxa_penta_top_hat_rs::drive_log::{
    drive_failure_log_key, format_poll, snapshot_poll, DriveLogSnapshot, DriveLogState,
    DRIVE_LOG_MAX_QUIET,
};
use radxa_penta_top_hat_rs::drives::{
    DriveTemperatureFailure, DriveTemperaturePoll, DriveTemperatureReading,
};
use radxa_penta_top_hat_rs::fan::FanLevel;
use radxa_penta_top_hat_rs::fan_log::{
    format_sample, FanLogLine, FanLogState, FAN_LOG_MAX_QUIET, FAN_LOG_MIN_INTERVAL,
};
use radxa_penta_top_hat_rs::pwm::{apply_changed_duty, Duty, FanPwmOutput};
use radxa_penta_top_hat_rs::smart::{DriveTemperature, SmartTemperatureSource};
use radxa_penta_top_hat_rs::stabilizer::DutyStabilizer;

const SECOND: u128 = 1_000_000_000;
const START: u128 = 1_000 * SECOND;

fn number(value: f64) -> Binary64 {
    Binary64::from_bits(value.to_bits())
}

fn show(value: Binary64) -> String {
    format!("{:.1}", f64::from_bits(value.to_bits()))
}

#[derive(Default)]
struct RecordingOutput {
    duties: Vec<u8>,
}

impl FanPwmOutput for RecordingOutput {
    fn set_logical_duty(&mut self, duty: Duty) -> Result<(), String> {
        self.duties.push((duty.parts_per_million() / 10_000) as u8);
        Ok(())
    }
}

struct BrokenOutput {
    attempts: usize,
}

impl FanPwmOutput for BrokenOutput {
    fn set_logical_duty(&mut self, _duty: Duty) -> Result<(), String> {
        self.attempts += 1;
        Err("no such line".to_string())
    }
}

fn thresholds() -> FanConfig {
    FanConfig {
        lv0: number(40.0),
        lv1: number(50.0),
        lv2: number(60.0),
        lv3: number(70.0),
    }
}

fn fan_decision(temp_c: f64) -> FanDecision {
    FanDecision::cpu_only(number(temp_c), thresholds())
}

#[test]
fn applies_first_duty() {
    let mut output = RecordingOutput::default();
    let mut last_duty = None;

    assert!(apply_changed_duty(&mut output, 25, &mut last_duty).unwrap());

    assert_eq!(output.duties, vec![25]);
    assert_eq!(last_duty, Some(25));
}

#[test]
fn skips_unchanged_duty() {
    let mut output = RecordingOutput::default();
    let mut last_duty = Some(50);

    assert!(!apply_changed_duty(&mut output, 50, &mut last_duty).unwrap());

    assert!(output.duties.is_empty());
    assert_eq!(last_duty, Some(50));
}

#[test]
fn fan_disabled_commands_zero_duty() {
    let computed = FanDecision::cpu_only(
        number(55.0),
        FanConfig {
            lv0: number(40.0),
            lv1: number(45.0),
            lv2: number(50.0),
            lv3: number(60.0),
        },
    );
    let mut stabilizer = DutyStabilizer::default();
    let commanded = commanded_duty(
        &computed,
        false,
        FanCurveConfig::default(),
        &mut stabilizer,
        START,
    );

    assert_eq!(commanded, 0);
}

#[test]
fn fan_test_respects_enabled_curve_maximum() {
    let curve = FanCurveConfig {
        enabled: true,
        max_duty: 80,
        ..FanCurveConfig::default()
    };

    assert!(validate_test_fan_duty(80, curve).is_ok());
    assert!(validate_test_fan_duty(81, curve).is_err());
    assert!(validate_test_fan_duty(100, FanCurveConfig::default()).is_ok());
}

#[test]
fn fan_logging_suppresses_small_routine_changes() {
    let now = START;
    let decision = fan_decision(55.0);
    let mut state = FanLogState::default();

    assert!(state.should_log(&decision, 50, true, 100, now));
    assert!(!state.should_log(&decision, 51, true, 100, now + 1 * SECOND));
    assert!(!state.should_log(&decision, 60, true, 100, now + 2 * SECOND));
    assert!(state.should_log(&decision, 60, true, 100, now + FAN_LOG_MIN_INTERVAL));
}

#[test]
fn fan_logging_reports_boundaries_and_periodic_drift() {
    let now = START;
    let decision = fan_decision(55.0);
    let mut state = FanLogState::default();

    assert!(state.should_log(&decision, 50, true, 100, now));
    assert!(state.should_log(&decision, 50, false, 100, now + 1 * SECOND));
    assert!(!state.should_log(&decision, 51, false, 100, now + 2 * SECOND));
    assert!(state.should_log(
        &decision,
        51,
        false,
        100,
        now + FAN_LOG_MAX_QUIET + 1 * SECOND
    ));
}

#[test]
fn fan_logging_reports_zero_and_maximum_boundaries_immediately() {
    let now = START;
    let decision = fan_decision(55.0);
    let mut state = FanLogState::default();

    assert!(state.should_log(&decision, 50, true, 100, now));
    assert!(state.should_log(&decision, 0, true, 100, now + 1 * SECOND));
    assert!(state.should_log(&decision, 1, true, 100, now + 2 * SECOND));
    assert!(state.should_log(&decision, 100, true, 100, now + 3 * SECOND));
    assert!(!state.should_log(&decision, 99, true, 100, now + 4 * SECOND));
}

#[test]
fn fan_logging_suppresses_level_jitter_until_summary_interval() {
    let now = START;
    let lower = fan_decision(49.9);
    let upper = fan_decision(50.1);
    let mut state = FanLogState::default();

    assert!(state.should_log(&lower, 49, true, 100, now));
    assert!(!state.should_log(&upper, 50, true, 100, now + 1 * SECOND));
    assert!(!state.should_log(&lower, 49, true, 100, now + 2 * SECOND));
    assert!(state.should_log(&upper, 50, true, 100, now + FAN_LOG_MAX_QUIET));
}

#[test]
fn compact_fan_log_preserves_control_details() {
    let thresholds = FanConfig {
        lv0: number(40.0),
        lv1: number(50.0),
        lv2: number(60.0),
        lv3: number(70.0),
    };
    let decision = FanDecision::from_temperatures(
        number(55.0),
        thresholds,
        Some(number(45.0)),
        thresholds,
    );
    let line = FanLogLine {
        decision,
        commanded_duty_percent: 52,
        enabled: true,
    }
    .text(&show);

    assert_eq!(
        line,
        "fan: cpu=55.0C/L1/50% drv=45.0C/L0/25% target=L1/50% out=52% on"
    );
    assert!(line.len() < 80);
}

#[test]
fn compact_fan_log_formats_missing_drive_and_fail_safe() {
    let normal = fan_decision(55.0);
    let normal_line = FanLogLine {
        decision: normal,
        commanded_duty_percent: 0,
        enabled: false,
    }
    .text(&show);
    assert_eq!(
        normal_line,
        "fan: cpu=55.0C/L1/50% drv=- target=L1/50% out=0% off"
    );

    let fail_safe = fan_decision(f64::NAN);
    let fail_safe_line = FanLogLine {
        decision: fail_safe,
        commanded_duty_percent: 100,
        enabled: true,
    }
    .text(&show);
    assert_eq!(
        fail_safe_line,
        "fan: cpu=err/L3/100% drv=- target=L3/100% out=100% on"
    );
}

#[test]
fn drive_logging_limits_small_duty_drift() {
    fn snapshot(duty_percent: u8) -> DriveLogSnapshot {
        DriveLogSnapshot {
            level: Some(FanLevel::Lv0),
            duty_percent: Some(duty_percent),
            standby_devices: Vec::new(),
            failures: Vec::new(),
        }
    }

    let now = START;
    let mut state = DriveLogState::default();

    assert!(state.should_log(snapshot(25), now));
    assert!(!state.should_log(snapshot(26), now + 30 * SECOND));
    assert!(state.should_log(snapshot(26), now + DRIVE_LOG_MAX_QUIET));
    assert!(state.should_log(
        snapshot(40),
        now + DRIVE_LOG_MAX_QUIET + 30 * SECOND
    ));
}

#[test]
fn drive_logging_normalizes_timeout_duration() {
    let first = DriveTemperatureFailure {
        device: "/dev/sdc".to_string(),
        error: "smartctl timed out after 4998 milliseconds".to_string(),
    };
    let second = DriveTemperatureFailure {
        device: "/dev/sdc".to_string(),
        error: "smartctl timed out after 4971 milliseconds".to_string(),
    };

    assert_eq!(
        drive_failure_log_key(&first),
        drive_failure_log_key(&second)
    );
}

#[test]
fn cpu_temperature_failure_uses_non_finite_fail_safe_and_recovers() {
    let mut state = CpuTempLogState::default();

    let (value, line) = state.value_or_fail_safe(Err("sensor unavailable".to_string()));
    assert!(f64::from_bits(value.to_bits()).is_nan());
    assert_eq!(
        line.as_deref(),
        Some("cpu-temperature: read failed; commanding fail-safe maximum duty: sensor unavailable")
    );
    assert_eq!(state.last_error.as_deref(), Some("sensor unavailable"));

    let (value, line) = state.value_or_fail_safe(Ok(number(52.5)));
    assert_eq!(value, number(52.5));
    assert_eq!(line.as_deref(), Some("cpu-temperature: reading recovered"));
    assert!(state.last_error.is_none());
}

#[test]
fn lasting_failure_is_logged_once() {
    let mut state = CpuTempLogState::default();
    let fail = |state: &mut CpuTempLogState, error: &str| {
        state.value_or_fail_safe(Err(error.to_string())).1.is_some()
    };
    assert!(fail(&mut state, "gone"));
    assert!(!fail(&mut state, "gone"));
    assert!(fail(&mut state, "broken"));
    assert!(state.value_or_fail_safe(Ok(number(1.0))).1.is_some());
    assert!(state.value_or_fail_safe(Ok(number(1.0))).1.is_none());
}

#[test]
fn unset_duty_is_tried_again() {
    let mut output = BrokenOutput { attempts: 0 };
    let mut last_duty = Some(30);
    let error = apply_changed_duty(&mut output, 40, &mut last_duty).unwrap_err();
    assert_eq!(error, "no such line");
    assert_eq!(last_duty, Some(30));
    assert!(apply_changed_duty(&mut output, 40, &mut last_duty).is_err());
    assert_eq!(output.attempts, 2);
}

#[test]
fn test_duty_above_the_maximum_is_named() {
    let curve = FanCurveConfig {
        enabled: true,
        max_duty: 80,
        ..FanCurveConfig::default()
    };
    assert_eq!(
        validate_test_fan_duty(81, curve).unwrap_err(),
        "test fan duty 81% exceeds configured fan-curve max_duty 80%"
    );
}

#[test]
fn sample_gives_every_part_of_a_decision() {
    let decision = FanDecision::from_temperatures(
        number(55.5),
        thresholds(),
        Some(number(45.0)),
        thresholds(),
    );
    assert_eq!(
        format_sample(&show, &decision, 52),
        "cpu_temp_c=55.5 cpu_level=Lv1 cpu_duty_percent=50 hottest_drive_temp_c=Some(45.0) drive_level=Some(Lv0) drive_duty_percent=Some(25) fan_level=Lv1 target_duty_percent=50 duty_percent=52 active_low_duty=0.48"
    );
    assert_eq!(
        format_sample(&show, &fan_decision(f64::NAN), 100),
        "cpu_temp_c=NaN cpu_level=Lv3 cpu_duty_percent=100 hottest_drive_temp_c=None drive_level=None drive_duty_percent=None fan_level=Lv3 target_duty_percent=100 duty_percent=100 active_low_duty=0.00"
    );
}

#[test]
fn duty_of_a_sample_is_printed_as_a_fraction() {
    for percent in 0..=255u8 {
        let line = format_sample(&show, &fan_decision(55.0), percent);
        let expected = format!("active_low_duty={:.2}", 1.0 - f64::from(percent) / 100.0);
        assert!(line.ends_with(&expected), "{line} {expected}");
    }
}

fn poll(readings: &[(&str, i32)], standby: &[&str], failures: &[(&str, &str)]) -> DriveTemperaturePoll {
    DriveTemperaturePoll {
        readings: readings
            .iter()
            .map(|(device, current_celsius)| DriveTemperatureReading {
                device: device.to_string(),
                temperature: DriveTemperature {
                    current_celsius: *current_celsius,
                    source: SmartTemperatureSource::JsonTemperatureCurrent,
                },
            })
            .collect(),
        standby_devices: standby.iter().map(|device| device.to_string()).collect(),
        failures: failures
            .iter()
            .map(|(device, error)| DriveTemperatureFailure {
                device: device.to_string(),
                error: error.to_string(),
            })
            .collect(),
    }
}

#[test]
fn poll_is_summed_up() {
    let found = poll(
        &[("/dev/sdc", 41), ("/dev/sdd", 47), ("sde", 47)],
        &["/dev/sdf"],
        &[("/dev/sdg", "no answer")],
    );
    assert_eq!(
        format_poll(&found, Some(FanLevel::Lv0), Some(32)),
        vec![
            "fan-drives: device=/dev/sdg read failed: no answer",
            "fan-drives: tempC=sdc:41,sdd:47,sde:47 hot=sde/47C/L0/32% standby=1 errors=1",
        ]
    );
    assert_eq!(
        format_poll(&poll(&[], &["/dev/sdf"], &[]), None, None),
        vec!["fan-drives: all configured drives are in standby; using CPU temperature only"]
    );
    assert_eq!(
        format_poll(&poll(&[], &[], &[("/dev/sdg", "x")]), None, None)[1],
        "fan-drives: no configured drive temperatures available; using CPU temperature only"
    );
}

#[test]
fn drive_status_is_logged_at_once() {
    let mut state = DriveLogState::default();
    let reading = || poll(&[("/dev/sdc", 41)], &[], &[]);
    let late = |error: &str| poll(&[("/dev/sdc", 41)], &[], &[("/dev/sdd", error)]);
    let asleep = || poll(&[("/dev/sdc", 41)], &["/dev/sdd"], &[]);
    let mut due = |found: DriveTemperaturePoll, level| {
        state.should_log(snapshot_poll(&found, level, Some(25)), START)
    };

    assert!(due(reading(), Some(FanLevel::Off)));
    assert!(!due(reading(), Some(FanLevel::Off)));
    assert!(due(reading(), Some(FanLevel::Lv0)));
    assert!(due(late("smartctl timed out after 4998 milliseconds"), Some(FanLevel::Lv0)));
    assert!(!due(late("smartctl timed out after 5 seconds"), Some(FanLevel::Lv0)));
    assert!(due(asleep(), Some(FanLevel::Lv0)));
    assert!(due(asleep(), None));
}
