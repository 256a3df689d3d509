//! Drive temperatures: the output of `smartctl`, polls, and the last known
//! temperatures.

use radxa_penta_top_hat_rs::drive_state::DriveTemperatureState;
use radxa_penta_top_hat_rs::drives::{
    poll_drive_temperatures, poll_drive_temperatures_with, remaining_time, DriveTemperatureFailure,
    DriveTemperaturePoll, DriveTemperatureReading, SMARTCTL_BATCH_TIMEOUT,
};
use radxa_penta_top_hat_rs::smart::{
    classify_smartctl_output, parse_smart_temperature, read_smart_temperature, DriveTemperature,
    SmartTemperatureSource, SmartctlError, SmartctlOutcome, SmartctlOutput,
};
use radxa_penta_top_hat_rs::smartctl::{after_look, smartctl_arguments, WaitStep};

const SECOND: u128 = 1_000_000_000;
const START: u128 = 1_000 * SECOND;

const SEAGATE_ATA: &str = r#"{
  "json_format_version": [1, 0],
  "smartctl": {
    "version": [7, 4],
    "argv": ["smartctl", "-A", "-j", "-n", "standby,3,5", "/dev/sdc"],
    "exit_status": 8
  },
  "device": { "name": "/dev/sdc", "type": "sat", "protocol": "ATA" },
  "ata_smart_attributes": {
    "revision": 10,
    "table": [
      {
        "id": 7,
        "name": "Seek_Error_Rate",
        "raw": { "value": 194264277, "string": "194264277" }
      },
      {
        "id": 190,
        "name": "Airflow_Temperature_Cel",
        "raw": { "value": 774897710, "string": "46 (Min/Max 36/46)" }
      },
      {
        "id": 194,
        "name": "Temperature_Celsius",
        "raw": { "value": 85899345966, "string": "46 (0 20 0 0 0)" }
      }
    ]
  },
  "power_on_time": { "hours": 28412 },
  "temperature": { "current": 46 }
}"#;

const STANDBY: &str = r#"{
  "json_format_version": [1, 0],
  "smartctl": {
    "version": [7, 4],
    "argv": ["smartctl", "-A", "-j", "-n", "standby,3,5", "/dev/sdc"],
    "messages": [
      {
        "string": "Device is in STANDBY mode, exit(3)",
        "severity": "information"
      }
    ],
    "exit_status": 3
  },
  "device": { "name": "/dev/sdc", "type": "sat", "protocol": "ATA" }
}"#;

fn temperature_reading(device: &str, current_celsius: i32) -> DriveTemperatureReading {
    DriveTemperatureReading {
        device: device.to_string(),
        temperature: DriveTemperature {
            current_celsius,
            source: SmartTemperatureSource::JsonTemperatureCurrent,
        },
    }
}

#[test]
fn parses_smartctl_json_temperature_current() {
    let output = r#"{
        "temperature": {
            "current": 37,
            "power_cycle_min": 18,
            "power_cycle_max": 44
        }
    }"#;

    assert_eq!(
        parse_smart_temperature(output),
        Some(DriveTemperature {
            current_celsius: 37,
            source: SmartTemperatureSource::JsonTemperatureCurrent,
        })
    );
}

#[test]
fn parses_smartctl_json_ata_attribute_fallback() {
    let output = r#"{
        "ata_smart_attributes": {
            "table": [
                {
                    "id": 194,
                    "name": "Temperature_Celsius",
                    "raw": {
                        "value": 32,
                        "string": "32 (Min/Max 20/49)"
                    }
                }
            ]
        }
    }"#;

    assert_eq!(
        parse_smart_temperature(output),
        Some(DriveTemperature {
            current_celsius: 32,
            source: SmartTemperatureSource::JsonAtaSmartAttribute,
        })
    );
}

#[test]
fn parses_smartctl_json_ata_attribute_raw_string_fallback() {
    let output = r#"{
        "ata_smart_attributes": {
            "table": [
                {
                    "id": 190,
                    "name": "Airflow_Temperature_Cel",
                    "raw": {
                        "string": "34"
                    }
                }
            ]
        }
    }"#;

    assert_eq!(
        parse_smart_temperature(output),
        Some(DriveTemperature {
            current_celsius: 34,
            source: SmartTemperatureSource::JsonAtaSmartAttribute,
        })
    );
}

#[test]
fn prefers_seagate_raw_string_over_packed_raw_integer() {
    let output = r#"{
        "ata_smart_attributes": {
            "table": [
                {
                    "id": 194,
                    "name": "Temperature_Celsius",
                    "raw": {
                        "value": 81604378668,
                        "string": "44 (0 19 0 0 0)"
                    }
                }
            ]
        }
    }"#;

    assert_eq!(
        parse_smart_temperature(output),
        Some(DriveTemperature {
            current_celsius: 44,
            source: SmartTemperatureSource::JsonAtaSmartAttribute,
        })
    );
}

#[test]
fn null_json_current_does_not_consume_a_later_number() {
    let output = r#"{
        "temperature": {
            "current": null,
            "power_cycle_min": 18
        },
        "ata_smart_attributes": {
            "table": [
                {
                    "name": "Temperature_Celsius",
                    "raw": { "string": "42" }
                }
            ]
        }
    }"#;

    assert_eq!(
        parse_smart_temperature(output),
        Some(DriveTemperature {
            current_celsius: 42,
            source: SmartTemperatureSource::JsonAtaSmartAttribute,
        })
    );
}

#[test]
fn uses_highest_temperature_when_json_attributes_disagree() {
    let output = r#"{
        "ata_smart_attributes": {
            "table": [
                {
                    "name": "Airflow_Temperature_Cel",
                    "raw": { "string": "41" }
                },
                {
                    "name": "Temperature_Celsius",
                    "raw": { "string": "44" }
                }
            ]
        }
    }"#;

    assert_eq!(
        parse_smart_temperature(output),
        Some(DriveTemperature {
            current_celsius: 44,
            source: SmartTemperatureSource::JsonAtaSmartAttribute,
        })
    );
}

#[test]
fn parses_ata_smart_text_attribute() {
    let output = r#"
ID# ATTRIBUTE_NAME          FLAG     VALUE WORST THRESH TYPE      UPDATED  WHEN_FAILED RAW_VALUE
194 Temperature_Celsius     0x0022   065   054   000    Old_age   Always       -       35 (Min/Max 20/49)
"#;

    assert_eq!(
        parse_smart_temperature(output),
        Some(DriveTemperature {
            current_celsius: 35,
            source: SmartTemperatureSource::TextAttribute,
        })
    );
}

#[test]
fn ignores_non_temperature_attributes_from_real_seagate_output() {
    let output = r#"
  7 Seek_Error_Rate         0x000f   083   060   045    Pre-fail  Always       -       194264277
190 Airflow_Temperature_Cel 0x0022   056   054   040    Old_age   Always       -       44 (Min/Max 36/46)
194 Temperature_Celsius     0x0022   044   046   000    Old_age   Always       -       44 (0 20 0 0 0)
"#;

    assert_eq!(
        parse_smart_temperature(output),
        Some(DriveTemperature {
            current_celsius: 44,
            source: SmartTemperatureSource::TextAttribute,
        })
    );
}

#[test]
fn uses_highest_temperature_when_text_attributes_disagree() {
    let output = r#"
190 Airflow_Temperature_Cel 0x0022   059   056   040    Old_age   Always       -       41 (Min/Max 34/44)
194 Temperature_Celsius     0x0022   044   046   000    Old_age   Always       -       44 (0 20 0 0 0)
"#;

    assert_eq!(
        parse_smart_temperature(output),
        Some(DriveTemperature {
            current_celsius: 44,
            source: SmartTemperatureSource::TextAttribute,
        })
    );
}

#[test]
fn parses_current_drive_temperature_text() {
    let output = "Current Drive Temperature:     31 C\n";

    assert_eq!(
        parse_smart_temperature(output),
        Some(DriveTemperature {
            current_celsius: 31,
            source: SmartTemperatureSource::TextCurrentDriveTemperature,
        })
    );
}

#[test]
fn parses_nvme_temperature_text() {
    let output = "Temperature:                        33 Celsius\n";

    assert_eq!(
        parse_smart_temperature(output),
        Some(DriveTemperature {
            current_celsius: 33,
            source: SmartTemperatureSource::TextNvmeTemperature,
        })
    );
}

#[test]
fn returns_none_when_temperature_is_absent() {
    let output = r#"{
        "smartctl": {
            "messages": [
                {
                    "string": "Smartctl open device failed",
                    "severity": "error"
                }
            ]
        }
    }"#;

    assert_eq!(parse_smart_temperature(output), None);
}

#[test]
fn accepts_temperature_even_when_smartctl_has_health_status_bits() {
    let output = SEAGATE_ATA;

    assert_eq!(
        classify_smartctl_output(output, "", Some(8)).unwrap(),
        SmartctlOutcome::Temperature(DriveTemperature {
            current_celsius: 46,
            source: SmartTemperatureSource::JsonTemperatureCurrent,
        })
    );
}

#[test]
fn classifies_standby_without_treating_it_as_a_failure() {
    let output = STANDBY;

    assert_eq!(
        classify_smartctl_output(output, "", Some(3)).unwrap(),
        SmartctlOutcome::Standby
    );
}

#[test]
fn standby_command_argument_alone_does_not_mean_drive_is_asleep() {
    let output = r#"{
        "smartctl": {
            "argv": ["smartctl", "-n", "standby,3,5"],
            "exit_status": 2
        }
    }"#;

    assert!(classify_smartctl_output(output, "", Some(2)).is_err());
}

#[test]
fn selects_hottest_successful_drive_and_keeps_failures() {
    let devices = vec![
        "/dev/sdc".to_string(),
        "/dev/sdd".to_string(),
        "/dev/sde".to_string(),
    ];
    let poll = poll_drive_temperatures_with(&devices, |device: &str| match device {
        "/dev/sdc" => Ok(SmartctlOutcome::Temperature(DriveTemperature {
            current_celsius: 41,
            source: SmartTemperatureSource::JsonTemperatureCurrent,
        })),
        "/dev/sdd" => Err("drive is in standby".to_string()),
        "/dev/sde" => Ok(SmartctlOutcome::Temperature(DriveTemperature {
            current_celsius: 47,
            source: SmartTemperatureSource::JsonTemperatureCurrent,
        })),
        _ => unreachable!(),
    });

    assert_eq!(poll.readings.len(), 2);
    assert_eq!(poll.failures.len(), 1);
    assert_eq!(poll.failures[0].device, "/dev/sdd");
    assert_eq!(poll.hottest().unwrap().device, "/dev/sde");
    assert_eq!(poll.hottest().unwrap().temperature.current_celsius, 47);
}

#[test]
fn all_failed_drive_reads_produce_no_hottest_temperature() {
    let devices = vec!["/dev/sdc".to_string(), "/dev/sdd".to_string()];
    let poll =
        poll_drive_temperatures_with(&devices, |_: &str| {
        Err::<SmartctlOutcome, String>("unavailable".to_string())
    });

    assert!(poll.readings.is_empty());
    assert_eq!(poll.failures.len(), 2);
    assert!(poll.hottest().is_none());
}

#[test]
fn standby_drives_are_excluded_without_becoming_failures() {
    let devices = vec!["/dev/sdc".to_string(), "/dev/sdd".to_string()];
    let poll =
        poll_drive_temperatures_with(&devices, |_: &str| {
        Ok::<SmartctlOutcome, String>(SmartctlOutcome::Standby)
    });

    assert!(poll.readings.is_empty());
    assert!(poll.failures.is_empty());
    assert_eq!(poll.standby_devices, devices);
    assert!(poll.hottest().is_none());
}

#[test]
fn transient_failure_keeps_recent_temperature_until_grace_expires() {
    let started = START;
    let grace = 60 * SECOND;
    let mut state = DriveTemperatureState::default();
    let fresh = DriveTemperaturePoll {
        readings: vec![temperature_reading("/dev/sdc", 47)],
        ..DriveTemperaturePoll::default()
    };
    let failure = DriveTemperaturePoll {
        failures: vec![DriveTemperatureFailure {
            device: "/dev/sdc".to_string(),
            error: "temporary SMART error".to_string(),
        }],
        ..DriveTemperaturePoll::default()
    };

    state.update(&fresh, started, grace);
    let stale = state.update(&failure, started + 30 * SECOND, grace);

    assert_eq!(
        stale
            .hottest()
            .map(|reading| reading.temperature.current_celsius),
        Some(47)
    );
    assert_eq!(stale.stale_devices, vec!["/dev/sdc"]);
    assert!(!stale.requires_fail_safe());

    let expired = state.update(&failure, started + 61 * SECOND, grace);
    assert!(expired.readings.is_empty());
    assert_eq!(expired.fail_safe_devices, vec!["/dev/sdc"]);
    assert!(expired.requires_fail_safe());
}

#[test]
fn standby_clears_cached_temperature_without_requesting_fail_safe() {
    let started = START;
    let grace = 60 * SECOND;
    let mut state = DriveTemperatureState::default();
    let fresh = DriveTemperaturePoll {
        readings: vec![temperature_reading("/dev/sdc", 47)],
        ..DriveTemperaturePoll::default()
    };
    let standby = DriveTemperaturePoll {
        standby_devices: vec!["/dev/sdc".to_string()],
        ..DriveTemperaturePoll::default()
    };

    state.update(&fresh, started, grace);
    let effective = state.update(&standby, started + 30 * SECOND, grace);

    assert!(effective.readings.is_empty());
    assert!(!effective.requires_fail_safe());

    let failure = DriveTemperaturePoll {
        failures: vec![DriveTemperatureFailure {
            device: "/dev/sdc".to_string(),
            error: "unavailable".to_string(),
        }],
        ..DriveTemperaturePoll::default()
    };
    let unavailable = state.update(&failure, started + 31 * SECOND, grace);
    assert!(unavailable.requires_fail_safe());
}

#[test]
fn uncached_partial_failure_requires_fail_safe_despite_other_readings() {
    let mut state = DriveTemperatureState::default();
    let poll = DriveTemperaturePoll {
        readings: vec![temperature_reading("/dev/sdc", 40)],
        failures: vec![DriveTemperatureFailure {
            device: "/dev/sdd".to_string(),
            error: "unavailable".to_string(),
        }],
        ..DriveTemperaturePoll::default()
    };

    let effective = state.update(&poll, START, 60 * SECOND);

    assert_eq!(
        effective
            .hottest()
            .map(|reading| reading.temperature.current_celsius),
        Some(40)
    );
    assert_eq!(effective.fail_safe_devices, vec!["/dev/sdd"]);
    assert!(effective.requires_fail_safe());
}

#[test]
fn successful_read_recovers_from_fail_safe() {
    let started = START;
    let grace = 60 * SECOND;
    let mut state = DriveTemperatureState::default();
    let failure = DriveTemperaturePoll {
        failures: vec![DriveTemperatureFailure {
            device: "/dev/sdc".to_string(),
            error: "unavailable".to_string(),
        }],
        ..DriveTemperaturePoll::default()
    };
    assert!(state.update(&failure, started, grace).requires_fail_safe());

    let recovered = DriveTemperaturePoll {
        readings: vec![temperature_reading("/dev/sdc", 42)],
        ..DriveTemperaturePoll::default()
    };
    let effective = state.update(&recovered, started + 30 * SECOND, grace);

    assert!(!effective.requires_fail_safe());
    assert!(effective.stale_devices.is_empty());
    assert_eq!(
        effective
            .hottest()
            .map(|reading| reading.temperature.current_celsius),
        Some(42)
    );
}

fn output(stdout: &[u8], stderr: &[u8], status: Option<i32>) -> Result<SmartctlOutput, SmartctlError> {
    Ok(SmartctlOutput {
        stdout: stdout.to_vec(),
        stderr: stderr.to_vec(),
        status,
    })
}

#[test]
fn drive_is_read_without_being_woken() {
    assert_eq!(
        smartctl_arguments("/dev/sdc"),
        vec!["-A", "-j", "-n", "standby,3,5", "-d", "ata", "/dev/sdc"]
    );
}

#[test]
fn process_is_ended_when_its_time_is_over() {
    let timeout = 4_998_765_432;
    let look = |exited, now| after_look(exited, now, START, timeout);
    assert_eq!(look(false, START), WaitStep::Pause { pause: 10_000_000 });
    assert_eq!(
        look(false, START + timeout),
        WaitStep::Kill {
            error: SmartctlError::Timeout { milliseconds: 4_998 },
        }
    );
    assert_eq!(look(true, START + 2 * timeout), WaitStep::Collect);
}

#[test]
fn errors_are_worded() {
    let text = |error: SmartctlError| error.message();
    assert_eq!(
        text(SmartctlError::Spawn("not found".to_string())),
        "failed to run smartctl: not found"
    );
    assert_eq!(
        text(SmartctlError::Wait("interrupted".to_string())),
        "failed while waiting for smartctl: interrupted"
    );
    assert_eq!(
        text(SmartctlError::Timeout { milliseconds: 5_000 }),
        "smartctl timed out after 5 seconds"
    );
    assert_eq!(
        text(SmartctlError::Timeout { milliseconds: 4_998 }),
        "smartctl timed out after 4998 milliseconds"
    );
    assert_eq!(
        text(SmartctlError::BatchTimeout),
        "SMART batch deadline reached before device poll"
    );
    assert_eq!(
        text(SmartctlError::NoTemperature {
            status: Some(-2),
            detail: "gone".to_string(),
        }),
        "smartctl returned no temperature (exit status -2): gone"
    );
    assert_eq!(
        text(SmartctlError::NoTemperature {
            status: None,
            detail: "gone".to_string(),
        }),
        "smartctl returned no temperature: gone"
    );
}

#[test]
fn reason_of_a_missing_temperature_is_found() {
    let detail = |stdout: &str, stderr: &str| {
        match classify_smartctl_output(stdout, stderr, Some(2)).unwrap_err() {
            SmartctlError::NoTemperature { status, detail } => {
                assert_eq!(status, Some(2));
                detail
            }
            other => panic!("{other:?}"),
        }
    };
    assert_eq!(detail("{}", "\n  cannot open  \nmore"), "cannot open");
    assert_eq!(
        detail(r#"{"smartctl": {"messages": [{"string": "Permission denied"}]}}"#, ""),
        "Permission denied"
    );
    assert_eq!(
        detail("{}", " \n"),
        "temperature field missing from SMART output"
    );
}

#[test]
fn standby_is_seen_in_three_places() {
    let standby = |stdout: &str, stderr: &str| {
        classify_smartctl_output(stdout, stderr, Some(3)) == Ok(SmartctlOutcome::Standby)
    };
    assert!(standby(r#"{"power_mode": {"string": "StandBy"}}"#, ""));
    assert!(standby(r#"{"power_mode": {"name": "STANDBY"}}"#, ""));
    assert!(standby(r#"{"smartctl": {"messages": [{"string": "Device is in STANDBY mode"}]}}"#, ""));
    assert!(standby("", "x\nDevice is in standby mode\n"));
    assert!(!standby("", "standby\ndevice\n"));
    assert!(!standby(r#"{"power_mode": {"string": "IDLE"}}"#, ""));
}

#[test]
fn output_need_not_be_valid_text() {
    let found = read_smart_temperature(output(
        b"\xff\nCurrent Drive Temperature:     31 C\xfe\n",
        b"",
        Some(0),
    ));
    assert_eq!(
        found,
        Ok(SmartctlOutcome::Temperature(DriveTemperature {
            current_celsius: 31,
            source: SmartTemperatureSource::TextCurrentDriveTemperature,
        }))
    );
    assert_eq!(
        read_smart_temperature(output(b"", b"bad \xff byte", None)),
        Err(SmartctlError::NoTemperature {
            status: None,
            detail: "bad \u{fffd} byte".to_string(),
        })
    );
    assert_eq!(
        read_smart_temperature(Err(SmartctlError::BatchTimeout)),
        Err(SmartctlError::BatchTimeout)
    );
}

struct Host {
    now: u128,
    calls: Vec<String>,
}

#[test]
fn drives_of_a_poll_share_its_time() {
    let devices = vec![
        "/dev/sdc".to_string(),
        "/dev/sdd".to_string(),
        "/dev/sde".to_string(),
    ];
    let (host, poll) = poll_drive_temperatures(
        &devices,
        Host {
            now: START,
            calls: Vec::new(),
        },
        |mut host: Host| {
            host.calls.push("clock".to_string());
            let now = host.now;
            (host, now)
        },
        |mut host: Host, device: &str, remaining: u128| {
            host.calls.push(device.to_string());
            assert_eq!(remaining, START + SMARTCTL_BATCH_TIMEOUT - host.now);
            host.now += 3 * SECOND;
            let result = if device == "/dev/sdc" {
                output(b"Temperature:                        33 Celsius\n", b"", Some(0))
            } else {
                Err(SmartctlError::Timeout { milliseconds: 2_000 })
            };
            (host, result)
        },
    );
    assert_eq!(
        host.calls,
        vec!["clock", "clock", "/dev/sdc", "clock", "/dev/sdd", "clock"]
    );
    assert_eq!(host.now, START + 6 * SECOND);
    assert_eq!(poll.readings, vec![DriveTemperatureReading {
        device: "/dev/sdc".to_string(),
        temperature: DriveTemperature {
            current_celsius: 33,
            source: SmartTemperatureSource::TextNvmeTemperature,
        },
    }]);
    let failures: Vec<_> = poll
        .failures
        .iter()
        .map(|failure| (failure.device.as_str(), failure.error.as_str()))
        .collect();
    assert_eq!(
        failures,
        vec![
            ("/dev/sdd", "smartctl timed out after 2 seconds"),
            ("/dev/sde", "SMART batch deadline reached before device poll"),
        ]
    );
    assert_eq!(remaining_time(5, 3), Ok(2));
    assert_eq!(remaining_time(5, 5), Err(SmartctlError::BatchTimeout));
}

#[test]
fn last_of_equally_hot_drives_is_the_hottest() {
    let poll = DriveTemperaturePoll {
        readings: vec![
            temperature_reading("/dev/sdc", 47),
            temperature_reading("/dev/sdd", 47),
            temperature_reading("/dev/sde", 12),
        ],
        ..DriveTemperaturePoll::default()
    };
    assert_eq!(poll.hottest().unwrap().device, "/dev/sdd");
}

#[test]
fn implausible_temperatures_are_no_temperatures() {
    for celsius in [-41, -40, 0, 125, 126, 200] {
        let output = format!("{{\"temperature\": {{\"current\": {celsius}}}}}");
        let found = parse_smart_temperature(&output);
        let plausible = (-40..=125).contains(&celsius);
        assert_eq!(found.is_some(), plausible, "{celsius}");
    }
}
