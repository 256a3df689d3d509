//! Runs of the daemon.

use radxa_penta_top_hat_rs::binary64::Binary64;
use radxa_penta_top_hat_rs::config::Config;
use radxa_penta_top_hat_rs::control::{Action, Controller, Event, Report};
use radxa_penta_top_hat_rs::drives::{
    DriveTemperatureFailure, DriveTemperaturePoll, DriveTemperatureReading,
};
use radxa_penta_top_hat_rs::smart::{DriveTemperature, SmartTemperatureSource};

const SECOND: u128 = 1_000_000_000;
const START: u128 = 1_000 * SECOND;

fn number(value: f64) -> Binary64 {
    Binary64::from_bits(value.to_bits())
}

fn show(value: Binary64) -> String {
    format!("{:.1}", f64::from_bits(value.to_bits()))
}

fn config(text: &str) -> Config {
    let read = |text: &str| text.parse::<f64>().ok().map(number);
    Config::parse(text, &read).unwrap()
}

fn temperature(celsius: f64, now: u128) -> Event {
    Event::Temperature {
        reading: Ok(number(celsius)),
        enabled: true,
        now,
    }
}

fn set(changed: bool, now: u128) -> Event {
    Event::DutySet {
        result: Ok(changed),
        now,
    }
}

fn switch(enabled: bool, now: u128) -> Event {
    Event::Switch { enabled, now }
}

fn hot(celsius: i32) -> DriveTemperaturePoll {
    DriveTemperaturePoll {
        readings: vec![DriveTemperatureReading {
            device: "/dev/sdc".to_string(),
            temperature: DriveTemperature {
                current_celsius: celsius,
                source: SmartTemperatureSource::JsonTemperatureCurrent,
            },
        }],
        ..DriveTemperaturePoll::default()
    }
}

fn devices(display: Result<bool, &str>, button: Option<&str>) -> Event {
    Event::DevicesStarted {
        display: display.map_err(str::to_string),
        button: button.map(str::to_string),
    }
}

fn checked(output: Option<&str>, button: Option<&str>, display: Option<&str>) -> Event {
    Event::Checked {
        output: output.map(str::to_string),
        button: button.map(str::to_string),
        display: display.map(str::to_string),
    }
}

fn failed(error: &str) -> Action {
    Action::Fail {
        error: error.to_string(),
    }
}

struct Run {
    control: Controller,
}

impl Run {
    fn new(text: &str, dry_run: bool, once: bool) -> Run {
        Run {
            control: Controller::new(config(text), dry_run, once),
        }
    }

    fn give(&mut self, event: Event) -> Report {
        self.control.step(event, &show)
    }

    /// Takes the run to its first pause, with the given temperature.
    fn open(&mut self, celsius: f64) -> Vec<String> {
        assert_eq!(self.control.action(), Action::ReadTemperature);
        let mut lines = self.give(temperature(celsius, START)).lines;
        lines.extend(self.give(set(true, START)).lines);
        assert_eq!(self.control.action(), Action::StartDevices);
        lines.extend(self.give(devices(Ok(true), None)).lines);
        assert_eq!(self.control.action(), Action::Rest { pause: 0 });
        lines
    }

    /// Takes the run from its first pause to the look for errors.
    fn round(&mut self, celsius: f64) {
        self.give(Event::Rested { stop: false });
        self.give(temperature(celsius, START));
        self.give(set(false, START));
        self.give(switch(true, START));
        self.give(set(false, START));
        assert_eq!(self.control.action(), Action::LookForErrors);
    }

    fn duty(&self) -> u8 {
        match self.control.action() {
            Action::SetDuty { percent } => percent,
            other => panic!("{other:?}"),
        }
    }
}

const CURVE: &str = "[fan]\nlv0 = 40\nlv1 = 50\nlv2 = 60\nlv3 = 70\n[fan_curve]\nenabled = true\nmax_duty = 80\nhysteresis = 2\nramp_down = 5\n[fan_drives]\nenabled = true\ndevices = /dev/sdc\nlv0 = 40\nlv1 = 50\nlv2 = 60\nlv3 = 70\npoll_seconds = 30\n";

#[test]
fn first_duty_comes_before_everything_else() {
    let mut run = Run::new("", false, false);
    assert_eq!(run.control.action(), Action::ReadTemperature);
    assert!(run.give(temperature(41.0, START)).lines.is_empty());
    assert_eq!(run.duty(), 50);
    assert_eq!(
        run.give(set(true, START)).lines,
        vec!["fan: cpu=41.0C/L1/50% drv=- target=L1/50% out=50% on"]
    );
    assert_eq!(run.control.action(), Action::StartDevices);
}

#[test]
fn settings_are_logged_at_the_start() {
    let lines = Run::new(CURVE, false, false).open(45.0);
    assert_eq!(
        lines[1..],
        [
            "oled: initialized",
            "fan-curve: enabled duties=25/50/75/100 tail=Extrapolate max_duty=80 hysteresis=2 ramp_down=5/s",
            "fan-drives: enabled devices=/dev/sdc poll_seconds=30",
        ]
    );
    let lines = Run::new("[fan_drives]\nenabled = true\n", false, false).open(20.0);
    assert_eq!(
        lines[1..],
        [
            "oled: initialized",
            "fan-drives: enabled but no devices are configured; using CPU temperature only",
        ]
    );
    assert_eq!(Run::new("", false, false).open(20.0).len(), 2);
}

#[test]
fn round_sets_the_duty_before_and_after_a_poll() {
    let mut run = Run::new(CURVE, false, false);
    run.open(45.0);
    run.give(Event::Rested { stop: false });
    assert_eq!(run.control.action(), Action::ReadTemperature);
    run.give(temperature(45.0, START + SECOND));
    assert_eq!(run.duty(), 38);
    run.give(set(false, START + SECOND));
    assert_eq!(run.control.action(), Action::PollDrives);
    let report = run.give(Event::Polled {
        poll: hot(55),
        now: START + 2 * SECOND,
    });
    assert_eq!(
        report.lines,
        vec!["fan-drives: tempC=sdc:55 hot=sdc/55C/L1/63% standby=0 errors=0"]
    );
    assert_eq!(run.control.action(), Action::ReadTemperature);
    run.give(temperature(46.0, START + 2 * SECOND));
    assert_eq!(run.duty(), 63);
    let report = run.give(set(true, START + 2 * SECOND));
    assert!(report.lines.is_empty());
    assert_eq!(run.control.action(), Action::LookForErrors);
    assert!(run.give(checked(None, None, None)).lines.is_empty());
    assert_eq!(run.control.action(), Action::Rest { pause: SECOND });

    run.give(Event::Rested { stop: false });
    run.give(temperature(46.0, START + 31 * SECOND));
    assert_eq!(run.duty(), 63);
    let report = run.give(set(false, START + 31 * SECOND));
    assert_eq!(
        report.lines,
        vec!["fan: cpu=46.0C/L0/40% drv=55.0C/L1/63% target=L1/63% out=63% on"]
    );
    assert_eq!(run.control.action(), Action::ReadSwitch);
    run.give(switch(true, START + 31 * SECOND));
    run.give(set(false, START + 31 * SECOND));
    run.give(checked(None, None, None));
    run.give(Event::Rested { stop: false });
    run.give(temperature(46.0, START + 32 * SECOND));
    run.give(set(false, START + 32 * SECOND));
    assert_eq!(run.control.action(), Action::PollDrives);
}

#[test]
fn duty_never_exceeds_the_maximum() {
    let mut run = Run::new(CURVE, false, false);
    run.open(20.0);
    run.give(Event::Rested { stop: false });
    run.give(temperature(500.0, START));
    assert_eq!(run.duty(), 80);
}

#[test]
fn failed_sensor_means_maximum_duty() {
    let mut run = Run::new(CURVE, false, false);
    run.open(20.0);
    run.give(Event::Rested { stop: false });
    let report = run.give(Event::Temperature {
        reading: Err("gone".to_string()),
        enabled: true,
        now: START,
    });
    assert_eq!(
        report.lines,
        vec!["cpu-temperature: read failed; commanding fail-safe maximum duty: gone"]
    );
    assert_eq!(run.duty(), 80);
}

#[test]
fn switched_off_fan_stands_still() {
    let mut run = Run::new("", false, false);
    run.open(60.0);
    run.give(Event::Rested { stop: false });
    run.give(Event::Temperature {
        reading: Ok(number(60.0)),
        enabled: false,
        now: START,
    });
    assert_eq!(run.duty(), 0);
    run.give(set(true, START));
    run.give(switch(true, START));
    assert_eq!(run.duty(), 100);
}

#[test]
fn stopped_daemon_stops_the_fan() {
    let mut run = Run::new("", false, false);
    run.open(60.0);
    run.give(Event::Rested { stop: true });
    assert_eq!(run.control.action(), Action::StopFan);
    assert_eq!(
        run.give(set(true, START)).lines,
        vec!["shutdown requested: fan duty set to 0 percent"]
    );
    assert_eq!(run.control.action(), Action::Finish);
    assert!(run.give(temperature(1.0, START)).lines.is_empty());
    assert_eq!(run.control.action(), Action::Finish);
}

#[test]
fn output_that_fails_ends_the_run() {
    let mut run = Run::new("", false, false);
    run.give(temperature(60.0, START));
    run.give(Event::DutySet {
        result: Err("no such line".to_string()),
        now: START,
    });
    assert_eq!(
        run.control.action(),
        Action::Fail {
            error: "no such line".to_string(),
        }
    );
}

#[test]
fn error_of_the_output_ends_the_run() {
    let mut run = Run::new("", false, false);
    assert!(run.control.has_output());
    run.open(60.0);
    run.round(60.0);
    let report = run.give(checked(Some("line lost"), Some("no events"), Some("no bus")));
    assert!(report.lines.is_empty());
    assert_eq!(
        run.control.action(),
        failed("software PWM error: line lost")
    );
}

#[test]
fn error_of_the_button_ends_the_run() {
    let mut run = Run::new("", false, false);
    run.open(60.0);
    run.round(60.0);
    let report = run.give(checked(None, Some("no events"), Some("no bus")));
    assert!(report.lines.is_empty());
    assert_eq!(
        run.control.action(),
        failed("button handler error: no events")
    );
}

#[test]
fn error_of_the_display_is_logged() {
    let mut run = Run::new("", false, false);
    run.open(60.0);
    run.round(60.0);
    assert_eq!(
        run.give(checked(None, None, Some("no bus"))).lines,
        vec!["oled: runtime error; display disabled: no bus"]
    );
    assert_eq!(run.control.action(), Action::Rest { pause: SECOND });
}

#[test]
fn start_of_the_devices_is_logged() {
    for (display, line) in [
        (Ok(true), "oled: initialized"),
        (Ok(false), "oled: disabled because SDA/SCL are not configured"),
        (
            Err("no bus"),
            "oled: initialization failed; continuing without display: no bus",
        ),
    ] {
        for button in [None, Some("no such line")] {
            let mut run = Run::new("", false, false);
            run.give(temperature(60.0, START));
            run.give(set(true, START));
            assert_eq!(run.give(devices(display, button)).lines, vec![line]);
            assert_eq!(
                run.control.action(),
                match button {
                    Some(error) => failed(error),
                    None => Action::Rest { pause: 0 },
                }
            );
        }
    }
}

#[test]
fn single_sample_is_printed_and_nothing_is_logged() {
    let mut run = Run::new("", false, true);
    assert!(run.give(temperature(41.0, START)).lines.is_empty());
    assert!(run.give(set(false, START)).lines.is_empty());
    assert!(!run.control.has_output());
    assert!(run.give(devices(Ok(true), Some("x"))).lines.is_empty());
    assert_eq!(run.control.action(), Action::Rest { pause: 0 });
    run.give(Event::Rested { stop: false });
    run.give(temperature(41.0, START));
    assert!(run.give(set(false, START)).lines.is_empty());
    let report = run.give(switch(true, START));
    assert_eq!(
        report.sample.as_deref(),
        Some("cpu_temp_c=41.0 cpu_level=Lv1 cpu_duty_percent=50 hottest_drive_temp_c=None drive_level=None drive_duty_percent=None fan_level=Lv1 target_duty_percent=50 duty_percent=50 active_low_duty=0.50")
    );
    run.give(set(false, START));
    assert_eq!(run.control.action(), Action::Finish);
}

#[test]
fn dry_run_goes_on_until_it_is_stopped() {
    let mut run = Run::new("", true, false);
    run.give(temperature(41.0, START));
    run.give(set(false, START));
    run.give(devices(Ok(false), None));
    for _ in 0..3 {
        run.give(Event::Rested { stop: false });
        run.give(temperature(41.0, START));
        run.give(set(false, START));
        assert!(run.give(switch(true, START)).sample.is_some());
        run.give(set(false, START));
        run.give(checked(None, None, None));
        assert_eq!(run.control.action(), Action::Rest { pause: SECOND });
    }
    run.give(Event::Rested { stop: true });
    assert_eq!(run.control.action(), Action::Finish);
}

#[test]
fn event_that_is_not_waited_for_is_passed_over() {
    let mut run = Run::new(CURVE, false, false);
    for event in [
        set(true, START),
        switch(true, START),
        devices(Err("x"), Some("y")),
        checked(Some("x"), Some("y"), Some("z")),
        Event::Rested { stop: true },
        Event::Polled {
            poll: DriveTemperaturePoll {
                failures: vec![DriveTemperatureFailure {
                    device: "/dev/sdc".to_string(),
                    error: "x".to_string(),
                }],
                ..DriveTemperaturePoll::default()
            },
            now: START,
        },
    ] {
        let report = run.give(event);
        assert!(report.lines.is_empty() && report.sample.is_none());
        assert_eq!(run.control.action(), Action::ReadTemperature);
    }
}
