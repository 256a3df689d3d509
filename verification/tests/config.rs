//! The settings.

use radxa_penta_top_hat_rs::binary64::Binary64;
use radxa_penta_top_hat_rs::config::{
    Config, ConfigError, FanConfig, FanCurveConfig, FanCurveTail, ReadError,
};
use radxa_penta_top_hat_rs::ini::{parse_ini, LineError};

fn number(value: f64) -> Binary64 {
    Binary64::from_bits(value.to_bits())
}

fn read(text: &str) -> Option<Binary64> {
    text.parse::<f64>().ok().map(number)
}

fn parse(input: &str) -> Result<Config, ConfigError> {
    Config::parse(input, &read)
}

#[test]
fn defaults_match_python_fallbacks() {
    let config = Config::default();
    assert_eq!(
        config.fan,
        FanConfig {
            lv0: number(35.0),
            lv1: number(40.0),
            lv2: number(45.0),
            lv3: number(50.0),
        }
    );
    assert_eq!(
        config.fan_curve,
        FanCurveConfig {
            enabled: false,
            duty0: 25,
            duty1: 50,
            duty2: 75,
            duty3: 100,
            tail: FanCurveTail::Extrapolate,
            max_duty: 100,
            hysteresis: 1,
            ramp_down: 0,
        }
    );
    assert!(!config.fan_drives.enabled);
    assert!(config.fan_drives.devices.is_empty());
    assert_eq!(
        config.fan_drives.thresholds,
        FanConfig {
            lv0: number(45.0),
            lv1: number(50.0),
            lv2: number(55.0),
            lv3: number(60.0),
        }
    );
    assert_eq!(config.fan_drives.poll_seconds, 30);
    assert_eq!(config.key.click, "slider");
    assert_eq!(config.key.twice, "switch");
    assert_eq!(config.key.press, "none");
    assert_eq!(config.time.twice, number(0.7));
    assert_eq!(config.time.press, number(1.8));
    assert!(!config.oled.rotate);
    assert!(!config.oled.f_temp);
    assert!(config.oled.auto_slide);
    assert_eq!(config.oled.auto_slide_time, number(10.0));
    assert_eq!(config.oled.sleep, number(0.0));
}

#[test]
fn parses_upstream_style_config() {
    let config = parse(
        r#"
        [fan]
        lv0 = 42
        lv1 = 51
        lv2 = 58
        lv3 = 64

        [key]
        click = slider
        twice = switch
        press = none

        [time]
        twice = 0.7
        press = 1.8

        [oled]
        rotate = false
        f-temp = false
        auto_slide = false
        auto_slide_time = 10
        sleep = 60

        [disk]
        extra = sdc1, sdd1
        "#,
    )
    .expect("config should parse");

    assert_eq!(config.fan.lv0, number(42.0));
    assert_eq!(config.fan.lv3, number(64.0));
    assert!(!config.oled.auto_slide);
    assert_eq!(config.oled.sleep, number(60.0));
    assert_eq!(config.disks, vec!["sdc1".to_string(), "sdd1".to_string()]);
}

#[test]
fn parses_explicit_drive_fan_config() {
    let config = parse(
        r#"
        [fan_drives]
        enabled = true
        devices = /dev/sdc, /dev/sdd, /dev/sde, /dev/sdf
        lv0 = 45
        lv1 = 50
        lv2 = 55
        lv3 = 60
        poll_seconds = 45
        "#,
    )
    .expect("drive fan config should parse");

    assert!(config.fan_drives.enabled);
    assert_eq!(
        config.fan_drives.devices,
        vec!["/dev/sdc", "/dev/sdd", "/dev/sde", "/dev/sdf"]
    );
    assert_eq!(config.fan_drives.thresholds.lv0, number(45.0));
    assert_eq!(config.fan_drives.thresholds.lv3, number(60.0));
    assert_eq!(config.fan_drives.poll_seconds, 45);
}

#[test]
fn parses_explicit_fan_curve_config() {
    let config = parse(
        r#"
        [fan_curve]
        enabled = true
        duty0 = 0
        duty1 = 25
        duty2 = 50
        duty3 = 75
        tail = ExTrApOlAtE
        max_duty = 80
        hysteresis = 2
        ramp_down = 5
        "#,
    )
    .expect("fan curve config should parse");

    assert_eq!(
        config.fan_curve,
        FanCurveConfig {
            enabled: true,
            duty0: 0,
            duty1: 25,
            duty2: 50,
            duty3: 75,
            tail: FanCurveTail::Extrapolate,
            max_duty: 80,
            hysteresis: 2,
            ramp_down: 5,
        }
    );
}

#[test]
fn allows_fan_curve_points_above_hard_max() {
    let config = parse(
        r#"
        [fan_curve]
        duty0 = 25
        duty1 = 50
        duty2 = 75
        duty3 = 100
        max_duty = 80
        "#,
    )
    .expect("hard max should clamp the computed curve, not constrain its points");

    assert_eq!(config.fan_curve.duty3, 100);
    assert_eq!(config.fan_curve.max_duty, 80);
}

#[test]
fn rejects_fan_curve_percent_out_of_range() {
    let err = parse(
        r#"
        [fan_curve]
        max_duty = 101
        "#,
    )
    .expect_err("out-of-range percentage should fail");

    assert!(err.message().contains("max_duty"));
    assert!(err.message().contains("0..=100"));
}

#[test]
fn rejects_non_integer_fan_curve_percent() {
    let err = parse(
        r#"
        [fan_curve]
        duty1 = 12.5
        "#,
    )
    .expect_err("fractional percentage should fail");

    assert!(err.message().contains("duty1"));
    assert!(err.message().contains("integer"));
}

#[test]
fn rejects_invalid_fan_curve_stability_percentages() {
    for (key, value) in [
        ("hysteresis", "101"),
        ("hysteresis", "1.5"),
        ("ramp_down", "101"),
        ("ramp_down", "1.5"),
    ] {
        let input = format!("[fan_curve]\n{key} = {value}\n");
        let err = parse(&input).expect_err("invalid percentage should fail");

        assert!(err.message().contains(key));
        assert!(err.message().contains("integer in 0..=100"));
    }
}

#[test]
fn rejects_decreasing_fan_curve_duties() {
    let err = parse(
        r#"
        [fan_curve]
        duty0 = 0
        duty1 = 50
        duty2 = 25
        duty3 = 75
        "#,
    )
    .expect_err("decreasing duties should fail");

    assert!(err.message().contains("[fan_curve] duties"));
    assert!(err.message().contains("nondecreasing"));
}

#[test]
fn rejects_unknown_fan_curve_tail() {
    let err = parse(
        r#"
        [fan_curve]
        tail = accelerate
        "#,
    )
    .expect_err("unknown tail mode should fail");

    assert!(err.message().contains("tail"));
    assert!(err.message().contains("hold or extrapolate"));
}

#[test]
fn rejects_unknown_fan_curve_key() {
    let err = parse(
        r#"
        [fan_curve]
        enabled = true
        max-duty = 80
        "#,
    )
    .expect_err("a misspelled hard maximum must not silently use the default");

    assert!(err.message().contains("max-duty"));
    assert!(err.message().contains("[fan_curve]"));
}

#[test]
fn rejects_zero_drive_poll_interval() {
    let err = parse(
        r#"
        [fan_drives]
        poll_seconds = 0
        "#,
    )
    .expect_err("zero poll interval should fail");

    assert!(err.message().contains("poll_seconds"));
    assert!(err.message().contains("positive integer"));
}

#[test]
fn rejects_non_finite_cpu_threshold() {
    let err = parse(
        r#"
        [fan]
        lv0 = NaN
        "#,
    )
    .expect_err("NaN threshold should fail");

    assert!(err.message().contains("[fan] thresholds"));
}

#[test]
fn rejects_unordered_drive_thresholds() {
    let err = parse(
        r#"
        [fan_drives]
        lv0 = 45
        lv1 = 55
        lv2 = 50
        lv3 = 60
        "#,
    )
    .expect_err("unordered thresholds should fail");

    assert!(err.message().contains("[fan_drives] thresholds"));
}

#[test]
fn example_of_the_manual_is_read() {
    let config = parse(
        "[fan]\nlv0 = 45\nlv1 = 53\nlv2 = 59\nlv3 = 63\n\n[oled]\nauto_slide = false\nsleep = 60\n\n[disk]\nextra = md127, sda1\n\n[fan_drives]\nenabled = true\ndevices = /dev/sdc,/dev/sdd\n\n[fan_curve]\nenabled = true\nduty3 = 90\nhysteresis = 2\nramp_down = 5\n",
    )
    .unwrap();

    assert_eq!(config.fan.lv1, number(53.0));
    assert_eq!(config.disks, vec!["md127", "sda1"]);
    assert_eq!(config.fan_drives.devices, vec!["/dev/sdc", "/dev/sdd"]);
    assert_eq!(config.fan_curve.duty3, 90);
    assert_eq!(config.fan_curve.ramp_down, 5);
    assert_eq!(config.fan_curve.max_duty, 100);
}

#[test]
fn booleans_have_four_spellings_each() {
    for (word, value) in [
        ("true", true),
        ("YES", true),
        ("On", true),
        ("1", true),
        ("false", false),
        ("no", false),
        ("OFF", false),
        ("0", false),
    ] {
        let config = parse(&format!("[oled]\nrotate = {word}\n")).unwrap();
        assert_eq!(config.oled.rotate, value);
    }
    let error = parse("[oled]\nrotate = maybe\n").unwrap_err();
    assert_eq!(
        error.message(),
        "invalid config value for rotate: \"maybe\", expected boolean"
    );
}

#[test]
fn values_in_messages_are_escaped() {
    let error = parse("[fan]\nlv0 = a\"b\\c\n").unwrap_err();
    assert_eq!(
        error.message(),
        "invalid config value for lv0: \"a\\\"b\\\\c\", expected number"
    );
}

#[test]
fn lines_that_cannot_be_read_are_numbered() {
    let error = |input: &str| parse(input).unwrap_err().message();

    assert_eq!(
        error("\n[fan\n"),
        "config parse error on line 2: unterminated section header"
    );
    assert_eq!(error("[ ]"), "config parse error on line 1: empty section header");
    assert_eq!(
        error("# nothing yet\nlv0 = 1"),
        "config parse error on line 2: key/value appears before any section"
    );
    assert_eq!(
        error("[fan]\n\nlv0\n"),
        "config parse error on line 3: expected key = value"
    );
    assert_eq!(error("[fan]\n= 3"), "config parse error on line 2: empty key");
    assert_eq!(
        parse_ini("[fan]\n= 3"),
        Err(LineError {
            line: 2,
            message: "empty key".to_string(),
        })
    );
}

#[test]
fn names_ignore_case_and_comments_are_cut() {
    let config = parse("[FAN] ; processor\r\nLV0 = 30 # warm\r\n[Disk]\nextra = , a ,,b,\n").unwrap();
    assert_eq!(config.fan.lv0, number(30.0));
    assert_eq!(config.disks, vec!["a", "b"]);
}

#[test]
fn last_value_of_a_key_counts() {
    let config = parse("[fan]\nlv0 = 30\n[oled]\nsleep = 5\n[fan]\nlv0 = 31\n").unwrap();
    assert_eq!(config.fan.lv0, number(31.0));
    assert_eq!(config.oled.sleep, number(5.0));
}

#[test]
fn first_unknown_key_in_order_is_reported() {
    let error = parse("[fan_curve]\nzeta = 1\nalpha = 2\nduty0 = 200\n").unwrap_err();
    assert_eq!(error.message(), "unknown key \"alpha\" in [fan_curve]");
    assert!(parse("[fan]\nzeta = 1\n").is_ok());
}

#[test]
fn first_error_in_order_is_reported() {
    let error = parse("[oled]\nsleep = x\n[fan]\nlv3 = y\nlv0 = z\n").unwrap_err();
    assert_eq!(
        error,
        ConfigError::Value {
            key: "lv0".to_string(),
            value: "z".to_string(),
            expected: "number",
        }
    );
}

#[test]
fn empty_keys_of_the_button_are_as_by_default() {
    let config = parse("[key]\nclick =\ntwice = reboot\n").unwrap();
    assert_eq!(config.key.click, "slider");
    assert_eq!(config.key.twice, "reboot");
}

#[test]
fn empty_text_means_defaults() {
    assert_eq!(parse(""), Ok(Config::default()));
    assert_eq!(parse("# nothing\n\n[fan]\n"), Ok(Config::default()));
}

#[test]
fn missing_file_means_defaults() {
    assert_eq!(
        Config::from_file_or_defaults(Err(ReadError::NotFound), &read),
        Ok(Config::default())
    );
    let error = Config::from_file_or_defaults(
        Err(ReadError::Other("permission denied".to_string())),
        &read,
    )
    .unwrap_err();
    assert_eq!(error.message(), "config I/O error: permission denied");
    let config =
        Config::from_file_or_defaults(Ok("[fan]\nlv3 = 90\n".to_string()), &read).unwrap();
    assert_eq!(config.fan.lv3, number(90.0));
}

#[test]
fn poll_interval_is_a_number_of_64_bits() {
    let config = parse("[fan_drives]\npoll_seconds = +18446744073709551615\n").unwrap();
    assert_eq!(config.fan_drives.poll_seconds, u64::MAX);
    assert!(parse("[fan_drives]\npoll_seconds = 18446744073709551616\n").is_err());
    assert!(parse("[fan_drives]\npoll_seconds = -1\n").is_err());
}

#[test]
fn infinite_thresholds_are_rejected() {
    let error = parse("[fan]\nlv3 = inf\n").unwrap_err();
    assert_eq!(
        error.message(),
        "invalid [fan] thresholds: lv0 through lv3 must be finite and strictly ascending"
    );
    assert_eq!(
        parse("[fan]\nlv0 = 40\n").unwrap_err(),
        ConfigError::Thresholds { section: "fan" }
    );
}
