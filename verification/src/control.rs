//! The run of the daemon: what is done next, given what has happened.
//!
//! The daemon first gives the fan a duty that is safe for the processor, then
//! starts the display and the button, and then works in rounds. A round reads
//! the temperature of the processor, sets the duty, polls the drives where that
//! is due, and sets the duty again. Points in time and spans of time are whole
//! numbers of nanoseconds.

use vstd::prelude::*;
use vstd::string::*;

use crate::binary64::Binary64;
use crate::config::{Config, ConfigView, FanCurveConfig, FanCurveTail};
use crate::cpu_log::{acted_on, cpu_line, error_after, reading_view, CpuTempLogState};
use crate::decision::{decision_for, decision_honors_maximum, FanDecision};
use crate::drive_log::{
    drive_snapshot, format_poll, poll_lines, snapshot_poll, DriveLogState, DriveLogView,
};
use crate::drives::{hottest_reading, DriveTemperaturePoll, PollView};
use crate::fan::{
    duty_for_temperature, duty_of, failed_sensor_asks_for_the_most, lemma_duty_range,
    level_for_temperature, level_of,
};
use crate::fan_log::{
    fan_line, format_sample, has_passed, passed, sample_line, snapshot_of, FanLogLine, FanLogState,
};
use crate::number::{decimal, push_decimal};
use crate::reader::is_printer;
use crate::split::{comma_separated, views};
use crate::stabilizer::{output_honors_maximum, DutyStabilizer};
use crate::text::maybe_text;

verus! {

/// The pause between two rounds.
pub const ROUND_PAUSE: u128 = 1_000_000_000;

/// A duty for the fan, and the decision behind it.
#[derive(Debug, Clone, Copy, PartialEq, Eq)]
pub struct FanCommand {
    pub decision: FanDecision,
    pub duty_percent: u8,
    pub enabled: bool,
}

/// What the daemon waits for.
#[derive(Debug, Clone, Copy, PartialEq, Eq)]
pub enum Phase {
    /// The first temperature.
    Starting,
    /// The first duty to be set.
    Opening(FanCommand),
    /// The display and the button to be started.
    Devices,
    /// The pause before a round to end.
    Resting(u128),
    /// The temperature at the start of a round.
    Reading,
    /// The duty before a poll to be set.
    Applying(FanCommand),
    /// A poll of the drives.
    Polling,
    /// The temperature after a poll.
    Rereading,
    /// The state of the switch, where there was no poll.
    Switching,
    /// The duty at the end of a round to be set.
    Reapplying(FanCommand),
    /// A look for errors at the end of a round.
    Checking,
    /// The fan to be stopped.
    Closing,
    /// Nothing: the run is over.
    Done,
    /// Nothing: the run has failed.
    Failed,
}

/// What is to be done next.
#[derive(Debug, Clone, PartialEq, Eq)]
pub enum Action {
    /// Read the temperature of the processor.
    ReadTemperature,
    /// Show a duty, and set it where there is an output and it is not yet set.
    SetDuty { percent: u8 },
    /// Start the display and the button, where there is an output.
    StartDevices,
    /// Look for errors of the output, the button and the display.
    LookForErrors,
    /// Wait, and ask whether to stop.
    Rest { pause: u128 },
    /// Look whether the fan is switched on.
    ReadSwitch,
    /// Poll the drives.
    PollDrives,
    /// Show that the fan is stopped, and stop it.
    StopFan,
    /// End the run.
    Finish,
    /// End the run with an error.
    Fail { error: String },
}

/// What has happened.
#[derive(Debug, PartialEq, Eq)]
pub enum Event {
    /// The temperature of the processor was read, or could not be.
    Temperature { reading: Result<Binary64, String>, enabled: bool, now: u128 },
    /// A duty was set, with whether it changed, or could not be.
    DutySet { result: Result<bool, String>, now: u128 },
    /// The display was started, with whether there is one, or could not be; then
    /// the button was, or could not be for an error. Where there is no output
    /// neither is started, and neither value counts.
    DevicesStarted { display: Result<bool, String>, button: Option<String> },
    /// Errors were looked for that have come up since the devices were started.
    Checked { output: Option<String>, button: Option<String>, display: Option<String> },
    /// The pause is over; `stop` says that the daemon is asked to stop.
    Rested { stop: bool },
    /// The switch was looked at.
    Switch { enabled: bool, now: u128 },
    /// The drives were polled.
    Polled { poll: DriveTemperaturePoll, now: u128 },
}

/// What has happened, as mathematical data.
pub enum EventView {
    Temperature { reading: Result<Binary64, Seq<char>>, enabled: bool, now: u128 },
    DutySet { result: Result<bool, Seq<char>>, now: u128 },
    DevicesStarted { display: Result<bool, Seq<char>>, button: Option<Seq<char>> },
    Checked {
        output: Option<Seq<char>>,
        button: Option<Seq<char>>,
        display: Option<Seq<char>>,
    },
    Rested { stop: bool },
    Switch { enabled: bool, now: u128 },
    Polled { poll: PollView, now: u128 },
}

/// A result with a text for its error, as mathematical data.
pub open spec fn result_view(result: Result<bool, String>) -> Result<bool, Seq<char>> {
    match result {
        Ok(changed) => Ok(changed),
        Err(error) => Err(error@),
    }
}

impl View for Event {
    type V = EventView;

    open spec fn view(&self) -> EventView {
        match *self {
            Event::Temperature { reading, enabled, now } => EventView::Temperature {
                reading: reading_view(reading),
                enabled,
                now,
            },
            Event::DutySet { result, now } => EventView::DutySet { result: result_view(result), now },
            Event::DevicesStarted { display, button } => EventView::DevicesStarted {
                display: result_view(display),
                button: maybe_text(button),
            },
            Event::Checked { output, button, display } => EventView::Checked {
                output: maybe_text(output),
                button: maybe_text(button),
                display: maybe_text(display),
            },
            Event::Rested { stop } => EventView::Rested { stop },
            Event::Switch { enabled, now } => EventView::Switch { enabled, now },
            Event::Polled { poll, now } => EventView::Polled { poll: poll@, now },
        }
    }
}

/// The state of a run, as mathematical data.
pub struct ControlView {
    pub config: ConfigView,
    /// Whether there is an output for the fan.
    pub has_output: bool,
    /// Whether the run is over after one round.
    pub once: bool,
    /// Whether each round prints a sample.
    pub sampling: bool,
    pub phase: Phase,
    pub failure: Seq<char>,
    pub temperature: Binary64,
    pub hottest: Option<Binary64>,
    pub stabilizer: DutyStabilizer,
    pub last_poll: Option<u128>,
    pub cpu_error: Option<Seq<char>>,
    pub fan_log: FanLogState,
    pub drive_log: DriveLogView,
}

/// What comes of an event: the new state, the lines for the log, and the sample
/// to print, if any.
pub struct Outcome {
    pub state: ControlView,
    pub lines: Seq<Seq<char>>,
    pub sample: Option<Seq<char>>,
}

/// A line that may be missing, as a list.
pub open spec fn as_lines(line: Option<Seq<char>>) -> Seq<Seq<char>> {
    match line {
        Some(line) => seq![line],
        None => Seq::empty(),
    }
}

/// The duty for a decision, and the stabilizer after it: a fan that is switched
/// off is stopped at once.
pub open spec fn commanded(
    stabilizer: DutyStabilizer,
    decision: FanDecision,
    enabled: bool,
    curve: FanCurveConfig,
    now: u128,
) -> DutyStabilizer {
    if enabled {
        stabilizer.updated(decision.duty_percent, curve, now)
    } else {
        DutyStabilizer::settled(0, now)
    }
}

/// Gives the duty for a decision.
pub fn commanded_duty(
    decision: &FanDecision,
    enabled: bool,
    curve: FanCurveConfig,
    stabilizer: &mut DutyStabilizer,
    now: u128,
) -> (r: u8)
    requires
        old(stabilizer).consistent(),
    ensures
        *final(stabilizer) == commanded(*old(stabilizer), *decision, enabled, curve, now),
        final(stabilizer).output == Some(r),
        final(stabilizer).consistent(),
{
    if enabled {
        stabilizer.update(decision.duty_percent, curve, now)
    } else {
        stabilizer.force(0, curve, now)
    }
}

/// The lines on the settings that a run starts with.
pub open spec fn startup_lines(config: ConfigView) -> Seq<Seq<char>> {
    let curve = if config.fan_curve.enabled {
        seq![curve_line(config.fan_curve)]
    } else {
        Seq::empty()
    };
    let drives = if config.fan_drives.enabled {
        seq![drives_line(config.fan_drives.devices, config.fan_drives.poll_seconds)]
    } else {
        Seq::empty()
    };
    curve + drives
}

/// The name of the tail of a curve.
pub open spec fn tail_name(tail: FanCurveTail) -> Seq<char> {
    match tail {
        FanCurveTail::Hold => "Hold"@,
        FanCurveTail::Extrapolate => "Extrapolate"@,
    }
}

/// The line on the fan curve.
pub open spec fn curve_line(curve: FanCurveConfig) -> Seq<char> {
    "fan-curve: enabled duties="@ + decimal(curve.duty0 as nat) + "/"@ + decimal(curve.duty1 as nat)
        + "/"@ + decimal(curve.duty2 as nat) + "/"@ + decimal(curve.duty3 as nat) + " tail="@
        + tail_name(curve.tail) + " max_duty="@ + decimal(curve.max_duty as nat) + " hysteresis="@
        + decimal(curve.hysteresis as nat) + " ramp_down="@ + decimal(curve.ramp_down as nat) + "/s"@
}

/// The line on the drives.
pub open spec fn drives_line(devices: Seq<Seq<char>>, poll_seconds: u64) -> Seq<char> {
    if devices.len() == 0 {
        "fan-drives: enabled but no devices are configured; using CPU temperature only"@
    } else {
        "fan-drives: enabled devices="@ + comma_separated(devices) + " poll_seconds="@ + decimal(
            poll_seconds as nat,
        )
    }
}

/// The line on the start of the display.
pub open spec fn display_line(display: Result<bool, Seq<char>>) -> Seq<char> {
    match display {
        Ok(present) => if present {
            "oled: initialized"@
        } else {
            "oled: disabled because SDA/SCL are not configured"@
        },
        Err(error) => "oled: initialization failed; continuing without display: "@ + error,
    }
}

/// The line on an error that has ended the display, if there is one.
pub open spec fn display_error_line(error: Option<Seq<char>>) -> Option<Seq<char>> {
    match error {
        Some(error) => Some("oled: runtime error; display disabled: "@ + error),
        None => None,
    }
}

impl ControlView {
    /// The run has failed.
    pub open spec fn failed(self, error: Seq<char>) -> Outcome {
        Outcome {
            state: ControlView { phase: Phase::Failed, failure: error, ..self },
            lines: Seq::empty(),
            sample: None,
        }
    }

    /// The state after a temperature was read or could not be.
    pub open spec fn with_temperature(self, reading: Result<Binary64, Seq<char>>) -> ControlView {
        ControlView { temperature: acted_on(reading), cpu_error: error_after(reading), ..self }
    }

    /// The first temperature is here: its duty is to be set at once.
    #[verifier::opaque]
    pub open spec fn started(self, reading: Result<Binary64, Seq<char>>, now: u128) -> Outcome {
        let curve = self.config.fan_curve;
        let decision = decision_for(
            acted_on(reading),
            self.config.fan,
            None,
            self.config.fan,
            curve,
        );
        let duty_percent = DutyStabilizer::goal(decision.duty_percent, curve);
        Outcome {
            state: ControlView {
                phase: Phase::Opening(FanCommand { decision, duty_percent, enabled: true }),
                stabilizer: DutyStabilizer::settled(duty_percent, now),
                ..self.with_temperature(reading)
            },
            lines: as_lines(cpu_line(self.cpu_error, reading)),
            sample: None,
        }
    }

    /// The state after a look whether the fan is to be logged.
    pub open spec fn fan_logged(self, command: FanCommand, now: u128) -> ControlView {
        ControlView {
            fan_log: self.fan_log.looked_at(self.fan_snapshot(command), now),
            ..self
        }
    }

    /// What the log can say of a command.
    pub open spec fn fan_snapshot(self, command: FanCommand) -> crate::fan_log::FanLogSnapshot {
        snapshot_of(
            command.decision,
            command.duty_percent,
            command.enabled,
            self.config.fan_curve.ceiling(),
        )
    }

    /// The line on a command, where one is due.
    pub open spec fn fan_lines<F: Fn(Binary64) -> String>(
        self,
        show: F,
        command: FanCommand,
        now: u128,
    ) -> Seq<Seq<char>> {
        if self.fan_log.is_due(self.fan_snapshot(command), now) {
            seq![
                fan_line(
                    show,
                    FanLogLine {
                        decision: command.decision,
                        commanded_duty_percent: command.duty_percent,
                        enabled: command.enabled,
                    },
                ),
            ]
        } else {
            Seq::empty()
        }
    }

    /// A command was carried out, and the run goes on in another phase; the
    /// command is logged where `logging` says so.
    #[verifier::opaque]
    pub open spec fn carried_out<F: Fn(Binary64) -> String>(
        self,
        show: F,
        command: FanCommand,
        logging: bool,
        now: u128,
        phase: Phase,
    ) -> Outcome {
        if logging {
            Outcome {
                state: ControlView { phase, ..self.fan_logged(command, now) },
                lines: self.fan_lines(show, command, now),
                sample: None,
            }
        } else {
            Outcome {
                state: ControlView { phase, ..self },
                lines: Seq::empty(),
                sample: None,
            }
        }
    }

    /// The decision on the temperatures that are known.
    pub open spec fn decision(self) -> FanDecision {
        decision_for(
            self.temperature,
            self.config.fan,
            self.hottest,
            self.config.fan_drives.thresholds,
            self.config.fan_curve,
        )
    }

    /// The stabilizer after a command.
    pub open spec fn stabilized(self, enabled: bool, now: u128) -> DutyStabilizer {
        commanded(self.stabilizer, self.decision(), enabled, self.config.fan_curve, now)
    }

    /// The command for the temperatures that are known.
    pub open spec fn command(self, enabled: bool, now: u128) -> FanCommand {
        FanCommand {
            decision: self.decision(),
            duty_percent: self.stabilized(enabled, now).output->0,
            enabled,
        }
    }

    /// A round starts with a duty for the temperatures that are known.
    #[verifier::opaque]
    pub open spec fn first_half(
        self,
        reading: Result<Binary64, Seq<char>>,
        enabled: bool,
        now: u128,
    ) -> Outcome {
        let known = self.with_temperature(reading);
        Outcome {
            state: ControlView {
                phase: Phase::Applying(known.command(enabled, now)),
                stabilizer: known.stabilized(enabled, now),
                ..known
            },
            lines: as_lines(cpu_line(self.cpu_error, reading)),
            sample: None,
        }
    }

    /// A round ends with a duty for the temperatures that are then known.
    #[verifier::opaque]
    pub open spec fn second_half<F: Fn(Binary64) -> String>(
        self,
        show: F,
        enabled: bool,
        now: u128,
        lines: Seq<Seq<char>>,
    ) -> Outcome {
        let command = self.command(enabled, now);
        Outcome {
            state: ControlView {
                phase: Phase::Reapplying(command),
                stabilizer: self.stabilized(enabled, now),
                ..self
            },
            lines,
            sample: if self.sampling {
                Some(sample_line(show, command.decision, command.duty_percent))
            } else {
                None
            },
        }
    }

    /// Whether the drives are to be polled.
    pub open spec fn poll_due(self, now: u128) -> bool {
        &&& self.config.fan_drives.enabled
        &&& self.config.fan_drives.devices.len() > 0
        &&& has_passed(
            self.last_poll,
            now,
            (self.config.fan_drives.poll_seconds * 1_000_000_000) as u128,
        )
    }

    /// A poll is here.
    #[verifier::opaque]
    pub open spec fn polled(self, poll: PollView, now: u128) -> Outcome {
        let thresholds = self.config.fan_drives.thresholds;
        let hottest = match hottest_reading(poll.readings) {
            Some(reading) => Some(Binary64::of_int(reading.1.current_celsius as int)),
            None => None,
        };
        let level = match hottest {
            Some(celsius) => Some(level_of(celsius, thresholds)),
            None => None,
        };
        let duty = match hottest {
            Some(celsius) => Some(duty_of(celsius, thresholds, self.config.fan_curve) as u8),
            None => None,
        };
        let snapshot = drive_snapshot(poll, level, duty);
        Outcome {
            state: ControlView {
                phase: Phase::Rereading,
                hottest,
                last_poll: Some(now),
                drive_log: self.drive_log.looked_at(snapshot, now),
                ..self
            },
            lines: if self.drive_log.is_due(snapshot, now) {
                poll_lines(poll, level, duty)
            } else {
                Seq::empty()
            },
            sample: None,
        }
    }

    /// The run goes on in another phase, and nothing else changes.
    pub open spec fn moved(self, phase: Phase, lines: Seq<Seq<char>>) -> Outcome {
        Outcome { state: ControlView { phase, ..self }, lines, sample: None }
    }

    /// An event that is not waited for changes nothing.
    pub open spec fn unmoved(self) -> Outcome {
        self.moved(self.phase, Seq::empty())
    }

    /// What comes of a temperature.
    #[verifier::opaque]
    pub open spec fn on_temperature<F: Fn(Binary64) -> String>(
        self,
        show: F,
        reading: Result<Binary64, Seq<char>>,
        enabled: bool,
        now: u128,
    ) -> Outcome {
        match self.phase {
            Phase::Starting => self.started(reading, now),
            Phase::Reading => self.first_half(reading, enabled, now),
            Phase::Rereading => self.with_temperature(reading).second_half(
                show,
                enabled,
                now,
                as_lines(cpu_line(self.cpu_error, reading)),
            ),
            _ => self.unmoved(),
        }
    }

    /// The phase after the first duty of a round was set.
    pub open spec fn after_applying(self, now: u128) -> Phase {
        if self.poll_due(now) {
            Phase::Polling
        } else {
            Phase::Switching
        }
    }

    /// The phase after the last duty of a round was set.
    pub open spec fn after_reapplying(self) -> Phase {
        if self.once {
            Phase::Done
        } else {
            Phase::Checking
        }
    }

    /// What comes of a duty that was set, or could not be.
    #[verifier::opaque]
    pub open spec fn on_duty_set<F: Fn(Binary64) -> String>(
        self,
        show: F,
        result: Result<bool, Seq<char>>,
        now: u128,
    ) -> Outcome {
        match self.phase {
            Phase::Opening(command) => match result {
                Ok(changed) => self.carried_out(show, command, changed, now, Phase::Devices),
                Err(error) => self.failed(error),
            },
            Phase::Applying(command) => match result {
                Ok(_) => self.carried_out(
                    show,
                    command,
                    self.has_output,
                    now,
                    self.after_applying(now),
                ),
                Err(error) => self.failed(error),
            },
            Phase::Reapplying(command) => match result {
                Ok(_) => self.carried_out(
                    show,
                    command,
                    self.has_output,
                    now,
                    self.after_reapplying(),
                ),
                Err(error) => self.failed(error),
            },
            Phase::Closing => match result {
                Ok(_) => self.moved(
                    Phase::Done,
                    seq!["shutdown requested: fan duty set to 0 percent"@],
                ),
                Err(error) => self.failed(error),
            },
            _ => self.unmoved(),
        }
    }

    /// What comes of the start of the display and the button.
    #[verifier::opaque]
    pub open spec fn on_devices_started(
        self,
        display: Result<bool, Seq<char>>,
        button: Option<Seq<char>>,
    ) -> Outcome {
        if !(self.phase is Devices) {
            self.unmoved()
        } else if !self.has_output {
            self.moved(Phase::Resting(0), startup_lines(self.config))
        } else {
            let first = seq![display_line(display)];
            match button {
                Some(error) => Outcome { lines: first, ..self.failed(error) },
                None => self.moved(Phase::Resting(0), first + startup_lines(self.config)),
            }
        }
    }

    /// What comes of a look for errors. One of the output or of the button ends
    /// the run, in this order; one of the display does not.
    #[verifier::opaque]
    pub open spec fn on_checked(
        self,
        output: Option<Seq<char>>,
        button: Option<Seq<char>>,
        display: Option<Seq<char>>,
    ) -> Outcome {
        if !(self.phase is Checking) {
            self.unmoved()
        } else {
            match output {
                Some(error) => self.failed("software PWM error: "@ + error),
                None => match button {
                    Some(error) => self.failed("button handler error: "@ + error),
                    None => self.moved(
                        Phase::Resting(ROUND_PAUSE),
                        as_lines(display_error_line(display)),
                    ),
                },
            }
        }
    }

    /// What comes of the end of a pause.
    #[verifier::opaque]
    pub open spec fn on_rested(self, stop: bool) -> Outcome {
        match self.phase {
            Phase::Resting(_) => self.moved(
                if !stop {
                    Phase::Reading
                } else if self.has_output {
                    Phase::Closing
                } else {
                    Phase::Done
                },
                Seq::empty(),
            ),
            _ => self.unmoved(),
        }
    }

    /// What comes of an event.
    pub open spec fn next<F: Fn(Binary64) -> String>(self, show: F, event: EventView) -> Outcome {
        match event {
            EventView::Temperature { reading, enabled, now } => self.on_temperature(
                show,
                reading,
                enabled,
                now,
            ),
            EventView::DutySet { result, now } => self.on_duty_set(show, result, now),
            EventView::DevicesStarted { display, button } => self.on_devices_started(
                display,
                button,
            ),
            EventView::Checked { output, button, display } => self.on_checked(
                output,
                button,
                display,
            ),
            EventView::Rested { stop } => self.on_rested(stop),
            EventView::Switch { enabled, now } => if self.phase is Switching {
                self.second_half(show, enabled, now, Seq::empty())
            } else {
                self.unmoved()
            },
            EventView::Polled { poll, now } => if self.phase is Polling {
                self.polled(poll, now)
            } else {
                self.unmoved()
            },
        }
    }
}

/// A run at its start.
pub open spec fn initial(config: ConfigView, dry_run: bool, once: bool) -> ControlView {
    ControlView {
        config,
        has_output: !(dry_run || once),
        once,
        sampling: dry_run || once,
        phase: Phase::Starting,
        failure: Seq::empty(),
        temperature: Binary64 { bits: 0x7ff8_0000_0000_0000 },
        hottest: None,
        stabilizer: DutyStabilizer { output: None, credit: 0, updated_at: 0 },
        last_poll: None,
        cpu_error: None,
        fan_log: FanLogState { last: None, last_logged_at: None },
        drive_log: DriveLogView { last: None, last_logged_at: None },
    }
}

/// The run of the daemon.
#[derive(Debug)]
pub struct Controller {
    config: Config,
    has_output: bool,
    once: bool,
    sampling: bool,
    phase: Phase,
    failure: String,
    temperature: Binary64,
    hottest: Option<Binary64>,
    stabilizer: DutyStabilizer,
    last_poll: Option<u128>,
    cpu_log: CpuTempLogState,
    fan_log: FanLogState,
    drive_log: DriveLogState,
}

impl View for Controller {
    type V = ControlView;

    closed spec fn view(&self) -> ControlView {
        ControlView {
            config: self.config@,
            has_output: self.has_output,
            once: self.once,
            sampling: self.sampling,
            phase: self.phase,
            failure: self.failure@,
            temperature: self.temperature,
            hottest: self.hottest,
            stabilizer: self.stabilizer,
            last_poll: self.last_poll,
            cpu_error: maybe_text(self.cpu_log.last_error),
            fan_log: self.fan_log,
            drive_log: self.drive_log@,
        }
    }
}

/// The lines and the sample of an event.
#[derive(Debug, Clone, PartialEq, Eq)]
pub struct Report {
    pub lines: Vec<String>,
    pub sample: Option<String>,
}

impl Report {
    /// Whether this is what comes of an event.
    pub open spec fn tells(self, outcome: Outcome) -> bool {
        views(self.lines@) == outcome.lines && maybe_text(self.sample) == outcome.sample
    }
}

fn report_line(line: Option<String>) -> (r: Vec<String>)
    ensures
        views(r@) == as_lines(maybe_text(line)),
{
    let mut lines: Vec<String> = Vec::new();
    if let Some(line) = line {
        lines.push(line);
        assert(views(lines@) == seq![line@]);
    }
    assert(views(lines@) == as_lines(maybe_text(line)));
    lines
}

fn no_lines() -> (r: Vec<String>)
    ensures
        views(r@) == Seq::<Seq<char>>::empty(),
{
    let lines: Vec<String> = Vec::new();
    assert(views(lines@) == Seq::<Seq<char>>::empty());
    lines
}

fn format_curve(curve: &FanCurveConfig) -> (r: String)
    ensures
        r@ == curve_line(*curve),
{
    let tail = match curve.tail {
        FanCurveTail::Hold => "Hold",
        FanCurveTail::Extrapolate => "Extrapolate",
    };
    let mut out = "fan-curve: enabled duties=".to_owned();
    push_decimal(&mut out, curve.duty0 as u64);
    out.append("/");
    push_decimal(&mut out, curve.duty1 as u64);
    out.append("/");
    push_decimal(&mut out, curve.duty2 as u64);
    out.append("/");
    push_decimal(&mut out, curve.duty3 as u64);
    out.append(" tail=");
    out.append(tail);
    out.append(" max_duty=");
    push_decimal(&mut out, curve.max_duty as u64);
    out.append(" hysteresis=");
    push_decimal(&mut out, curve.hysteresis as u64);
    out.append(" ramp_down=");
    push_decimal(&mut out, curve.ramp_down as u64);
    out.append("/s");
    out
}

fn join_devices(devices: &Vec<String>) -> (r: String)
    ensures
        r@ == comma_separated(views(devices@)),
{
    let ghost all = views(devices@);
    let mut out = String::new();
    assert(out@ == comma_separated(all.take(0)));
    for i in 0..devices.len()
        invariant
            all == views(devices@),
            out@ == comma_separated(all.take(i as int)),
    {
        assert(all.take(i + 1).drop_last() == all.take(i as int));
        assert(all.take(i + 1).last() == devices@[i as int]@);
        if i == 0 {
            out = devices[i].clone();
            assert(all.take(1)[0] == devices@[0]@);
        } else {
            out.append(",");
            out.append(devices[i].as_str());
        }
    }
    assert(all.take(all.len() as int) == all);
    out
}

fn format_drives(devices: &Vec<String>, poll_seconds: u64) -> (r: String)
    ensures
        r@ == drives_line(views(devices@), poll_seconds),
{
    if devices.len() == 0 {
        "fan-drives: enabled but no devices are configured; using CPU temperature only".to_owned()
    } else {
        let mut out = "fan-drives: enabled devices=".to_owned();
        out.append(join_devices(devices).as_str());
        out.append(" poll_seconds=");
        push_decimal(&mut out, poll_seconds);
        out
    }
}

fn format_startup(config: &Config) -> (r: Vec<String>)
    ensures
        views(r@) == startup_lines(config@),
{
    let mut lines: Vec<String> = Vec::new();
    if config.fan_curve.enabled {
        lines.push(format_curve(&config.fan_curve));
    }
    if config.fan_drives.enabled {
        lines.push(format_drives(&config.fan_drives.devices, config.fan_drives.poll_seconds));
    }
    assert(views(lines@) == startup_lines(config@));
    lines
}

fn labelled(label: &str, error: String) -> (r: String)
    ensures
        r@ == label@ + error@,
{
    let mut out: String = label.to_owned();
    out.append(error.as_str());
    out
}

fn format_display(display: Result<bool, String>) -> (r: String)
    ensures
        r@ == display_line(result_view(display)),
{
    match display {
        Ok(present) => if present {
            "oled: initialized".to_owned()
        } else {
            "oled: disabled because SDA/SCL are not configured".to_owned()
        },
        Err(error) => labelled(
            "oled: initialization failed; continuing without display: ",
            error,
        ),
    }
}

impl Controller {
    /// The settings can be worked with.
    #[verifier::type_invariant]
    spec fn sound(self) -> bool {
        self.config@.valid() && self.stabilizer.consistent()
    }

    /// A run with the given settings. A dry run and a run of one round print
    /// samples and leave the fan alone.
    pub fn new(config: Config, dry_run: bool, once: bool) -> (r: Controller)
        requires
            config@.valid(),
        ensures
            r@ == initial(config@, dry_run, once),
    {
        Controller {
            config,
            has_output: !(dry_run || once),
            once,
            sampling: dry_run || once,
            phase: Phase::Starting,
            failure: String::new(),
            temperature: Binary64::nan(),
            hottest: None,
            stabilizer: DutyStabilizer::default(),
            last_poll: None,
            cpu_log: CpuTempLogState::default(),
            fan_log: FanLogState::default(),
            drive_log: DriveLogState::default(),
        }
    }

    /// Says whether there is an output for the fan.
    pub fn has_output(&self) -> (r: bool)
        ensures
            r == self@.has_output,
    {
        self.has_output
    }

    /// Gives what is to be done next.
    pub fn action(&self) -> (r: Action)
        ensures
            is_action(r, self@),
    {
        match self.phase {
            Phase::Starting => Action::ReadTemperature,
            Phase::Opening(command) => Action::SetDuty { percent: command.duty_percent },
            Phase::Devices => Action::StartDevices,
            Phase::Resting(pause) => Action::Rest { pause },
            Phase::Reading => Action::ReadTemperature,
            Phase::Applying(command) => Action::SetDuty { percent: command.duty_percent },
            Phase::Polling => Action::PollDrives,
            Phase::Rereading => Action::ReadTemperature,
            Phase::Switching => Action::ReadSwitch,
            Phase::Reapplying(command) => Action::SetDuty { percent: command.duty_percent },
            Phase::Checking => Action::LookForErrors,
            Phase::Closing => Action::StopFan,
            Phase::Done => Action::Finish,
            Phase::Failed => Action::Fail { error: self.failure.clone() },
        }
    }

    /// Takes an event, and gives the lines for the log and the sample to print.
    pub fn step<F: Fn(Binary64) -> String>(&mut self, event: Event, show: &F) -> (r: Report)
        requires
            is_printer(*show),
        ensures
            final(self)@ == old(self)@.next(*show, event@).state,
            r.tells(old(self)@.next(*show, event@)),
    {
        match event {
            Event::Temperature { reading, enabled, now } => self.take_reading(
                reading,
                enabled,
                now,
                show,
            ),
            Event::DutySet { result, now } => self.take_duty_set(result, now, show),
            Event::DevicesStarted { display, button } => self.take_devices_started(
                display,
                button,
            ),
            Event::Checked { output, button, display } => self.take_checked(
                output,
                button,
                display,
            ),
            Event::Rested { stop } => self.take_rested(stop),
            Event::Switch { enabled, now } => {
                reveal(ControlView::second_half);
                if let Phase::Switching = self.phase {
                    let sample = self.finish_round(show, enabled, now);
                    Report { lines: no_lines(), sample }
                } else {
                    Report { lines: no_lines(), sample: None }
                }
            },
            Event::Polled { poll, now } => {
                if let Phase::Polling = self.phase {
                    self.take_poll(&poll, now)
                } else {
                    Report { lines: no_lines(), sample: None }
                }
            },
        }
    }

    fn take_reading<F: Fn(Binary64) -> String>(
        &mut self,
        reading: Result<Binary64, String>,
        enabled: bool,
        now: u128,
        show: &F,
    ) -> (r: Report)
        requires
            is_printer(*show),
        ensures
            final(self)@ == old(self)@.on_temperature(
                *show,
                reading_view(reading),
                enabled,
                now,
            ).state,
            r.tells(old(self)@.on_temperature(*show, reading_view(reading), enabled, now)),
    {
        proof {
            use_type_invariant(&*self);
            reveal(ControlView::on_temperature);
            reveal(ControlView::first_half);
            reveal(ControlView::second_half);
        }
        match self.phase {
            Phase::Starting => self.start(reading, now),
            Phase::Reading => {
                let line = self.take_temperature(reading);
                let command = self.command_fan(enabled, now);
                proof {
                    use_type_invariant(&*self);
                }
                self.phase = Phase::Applying(command);
                Report { lines: report_line(line), sample: None }
            },
            Phase::Rereading => {
                let line = self.take_temperature(reading);
                let sample = self.finish_round(show, enabled, now);
                Report { lines: report_line(line), sample }
            },
            _ => Report { lines: no_lines(), sample: None },
        }
    }

    fn take_duty_set<F: Fn(Binary64) -> String>(
        &mut self,
        result: Result<bool, String>,
        now: u128,
        show: &F,
    ) -> (r: Report)
        requires
            is_printer(*show),
        ensures
            final(self)@ == old(self)@.on_duty_set(*show, result_view(result), now).state,
            r.tells(old(self)@.on_duty_set(*show, result_view(result), now)),
    {
        proof {
            use_type_invariant(&*self);
            reveal(ControlView::on_duty_set);
        }
        match self.phase {
            Phase::Opening(command) => match result {
                Ok(changed) => self.carry_out(show, command, changed, now, Phase::Devices),
                Err(error) => self.fail(error),
            },
            Phase::Applying(command) => match result {
                Ok(_) => {
                    let phase = if self.poll_is_due(now) {
                        Phase::Polling
                    } else {
                        Phase::Switching
                    };
                    let logging = self.has_output;
                    self.carry_out(show, command, logging, now, phase)
                },
                Err(error) => self.fail(error),
            },
            Phase::Reapplying(command) => match result {
                Ok(_) => {
                    let phase = if self.once {
                        Phase::Done
                    } else {
                        Phase::Checking
                    };
                    let logging = self.has_output;
                    self.carry_out(show, command, logging, now, phase)
                },
                Err(error) => self.fail(error),
            },
            Phase::Closing => match result {
                Ok(_) => {
                    self.phase = Phase::Done;
                    let lines = report_line(
                        Some("shutdown requested: fan duty set to 0 percent".to_owned()),
                    );
                    Report { lines, sample: None }
                },
                Err(error) => self.fail(error),
            },
            _ => Report { lines: no_lines(), sample: None },
        }
    }

    fn take_devices_started(
        &mut self,
        display: Result<bool, String>,
        button: Option<String>,
    ) -> (r: Report)
        ensures
            final(self)@ == old(self)@.on_devices_started(
                result_view(display),
                maybe_text(button),
            ).state,
            r.tells(old(self)@.on_devices_started(result_view(display), maybe_text(button))),
    {
        proof {
            use_type_invariant(&*self);
            reveal(ControlView::on_devices_started);
        }
        if let Phase::Devices = self.phase {
            if self.has_output {
                let first = format_display(display);
                match button {
                    Some(error) => {
                        self.fail(error);
                        Report { lines: report_line(Some(first)), sample: None }
                    },
                    None => {
                        self.phase = Phase::Resting(0);
                        let mut lines = report_line(Some(first));
                        let mut rest = format_startup(&self.config);
                        let ghost before = views(lines@);
                        let ghost more = views(rest@);
                        lines.append(&mut rest);
                        assert(views(lines@) == before + more);
                        Report { lines, sample: None }
                    },
                }
            } else {
                self.phase = Phase::Resting(0);
                Report { lines: format_startup(&self.config), sample: None }
            }
        } else {
            Report { lines: no_lines(), sample: None }
        }
    }

    fn take_checked(
        &mut self,
        output: Option<String>,
        button: Option<String>,
        display: Option<String>,
    ) -> (r: Report)
        ensures
            final(self)@ == old(self)@.on_checked(
                maybe_text(output),
                maybe_text(button),
                maybe_text(display),
            ).state,
            r.tells(
                old(self)@.on_checked(
                    maybe_text(output),
                    maybe_text(button),
                    maybe_text(display),
                ),
            ),
    {
        proof {
            use_type_invariant(&*self);
            reveal(ControlView::on_checked);
        }
        if let Phase::Checking = self.phase {
            match output {
                Some(error) => self.fail(labelled("software PWM error: ", error)),
                None => match button {
                    Some(error) => self.fail(labelled("button handler error: ", error)),
                    None => {
                        self.phase = Phase::Resting(ROUND_PAUSE);
                        let line = match display {
                            Some(error) => Some(
                                labelled("oled: runtime error; display disabled: ", error),
                            ),
                            None => None,
                        };
                        Report { lines: report_line(line), sample: None }
                    },
                },
            }
        } else {
            Report { lines: no_lines(), sample: None }
        }
    }

    fn take_rested(&mut self, stop: bool) -> (r: Report)
        ensures
            final(self)@ == old(self)@.on_rested(stop).state,
            r.tells(old(self)@.on_rested(stop)),
    {
        proof {
            use_type_invariant(&*self);
            reveal(ControlView::on_rested);
        }
        if let Phase::Resting(_) = self.phase {
            self.phase = if !stop {
                Phase::Reading
            } else if self.has_output {
                Phase::Closing
            } else {
                Phase::Done
            };
        }
        Report { lines: no_lines(), sample: None }
    }

    fn fail(&mut self, error: String) -> (r: Report)
        ensures
            final(self)@ == old(self)@.failed(error@).state,
            r.tells(old(self)@.failed(error@)),
    {
        proof {
            use_type_invariant(&*self);
        }
        self.phase = Phase::Failed;
        self.failure = error;
        Report { lines: no_lines(), sample: None }
    }

    fn take_temperature(&mut self, reading: Result<Binary64, String>) -> (r: Option<String>)
        ensures
            final(self)@ == old(self)@.with_temperature(reading_view(reading)),
            maybe_text(r) == cpu_line(old(self)@.cpu_error, reading_view(reading)),
    {
        proof {
            use_type_invariant(&*self);
        }
        let mut log = CpuTempLogState::default();
        std::mem::swap(&mut log, &mut self.cpu_log);
        let (temperature, line) = log.value_or_fail_safe(reading);
        self.cpu_log = log;
        self.temperature = temperature;
        line
    }

    fn start(&mut self, reading: Result<Binary64, String>, now: u128) -> (r: Report)
        ensures
            final(self)@ == old(self)@.started(reading_view(reading), now).state,
            r.tells(old(self)@.started(reading_view(reading), now)),
    {
        proof {
            use_type_invariant(&*self);
            reveal(ControlView::started);
        }
        let line = self.take_temperature(reading);
        let curve = self.config.fan_curve;
        let decision = FanDecision::cpu_only_with_curve(self.temperature, self.config.fan, curve);
        let mut stabilizer = self.stabilizer;
        let duty_percent: u8 = stabilizer.force(decision.duty_percent, curve, now);
        self.stabilizer = stabilizer;
        self.phase = Phase::Opening(FanCommand { decision, duty_percent, enabled: true });
        Report { lines: report_line(line), sample: None }
    }

    fn carry_out<F: Fn(Binary64) -> String>(
        &mut self,
        show: &F,
        command: FanCommand,
        logging: bool,
        now: u128,
        phase: Phase,
    ) -> (r: Report)
        requires
            is_printer(*show),
        ensures
            final(self)@ == old(self)@.carried_out(*show, command, logging, now, phase).state,
            r.tells(old(self)@.carried_out(*show, command, logging, now, phase)),
    {
        proof {
            use_type_invariant(&*self);
            reveal(ControlView::carried_out);
        }
        self.phase = phase;
        if !logging {
            return Report { lines: no_lines(), sample: None };
        }
        let mut fan_log = self.fan_log;
        let due = fan_log.should_log(
            &command.decision,
            command.duty_percent,
            command.enabled,
            self.config.fan_curve.maximum_duty(),
            now,
        );
        self.fan_log = fan_log;
        if due {
            let line = FanLogLine {
                decision: command.decision,
                commanded_duty_percent: command.duty_percent,
                enabled: command.enabled,
            };
            Report { lines: report_line(Some(line.text(show))), sample: None }
        } else {
            Report { lines: no_lines(), sample: None }
        }
    }

    fn command_fan(&mut self, enabled: bool, now: u128) -> (r: FanCommand)
        ensures
            r == old(self)@.command(enabled, now),
            final(self)@ == (ControlView {
                stabilizer: old(self)@.stabilized(enabled, now),
                ..old(self)@
            }),
    {
        proof {
            use_type_invariant(&*self);
        }
        let curve = self.config.fan_curve;
        let decision = FanDecision::from_temperatures_with_curve(
            self.temperature,
            self.config.fan,
            self.hottest,
            self.config.fan_drives.thresholds,
            curve,
        );
        let mut stabilizer = self.stabilizer;
        let duty_percent: u8 = commanded_duty(&decision, enabled, curve, &mut stabilizer, now);
        self.stabilizer = stabilizer;
        FanCommand { decision, duty_percent, enabled }
    }

    fn finish_round<F: Fn(Binary64) -> String>(&mut self, show: &F, enabled: bool, now: u128) -> (r:
        Option<String>)
        requires
            is_printer(*show),
        ensures
            final(self)@ == old(self)@.second_half(*show, enabled, now, Seq::empty()).state,
            maybe_text(r) == old(self)@.second_half(*show, enabled, now, Seq::empty()).sample,
    {
        proof {
            use_type_invariant(&*self);
            reveal(ControlView::second_half);
        }
        let command = self.command_fan(enabled, now);
        self.phase = Phase::Reapplying(command);
        if self.sampling {
            Some(format_sample(show, &command.decision, command.duty_percent))
        } else {
            None
        }
    }

    fn poll_is_due(&self, now: u128) -> (r: bool)
        ensures
            r == self@.poll_due(now),
    {
        let interval: u128 = self.config.fan_drives.poll_seconds as u128 * 1_000_000_000;
        self.config.fan_drives.enabled && self.config.fan_drives.devices.len() > 0 && passed(
            self.last_poll,
            now,
            interval,
        )
    }

    fn take_poll(&mut self, poll: &DriveTemperaturePoll, now: u128) -> (r: Report)
        ensures
            final(self)@ == old(self)@.polled(poll@, now).state,
            r.tells(old(self)@.polled(poll@, now)),
    {
        proof {
            use_type_invariant(&*self);
            reveal(ControlView::polled);
        }
        let thresholds = self.config.fan_drives.thresholds;
        let curve = self.config.fan_curve;
        let hottest = match poll.hottest() {
            Some(reading) => Some(Binary64::from_int(reading.temperature.current_celsius)),
            None => None,
        };
        let level = match hottest {
            Some(celsius) => Some(level_for_temperature(celsius, thresholds)),
            None => None,
        };
        let duty: Option<u8> = match hottest {
            Some(celsius) => Some(duty_for_temperature(celsius, thresholds, curve)),
            None => None,
        };
        let mut log = DriveLogState::default();
        std::mem::swap(&mut log, &mut self.drive_log);
        let due = log.should_log(snapshot_poll(poll, level, duty), now);
        self.drive_log = log;
        self.hottest = hottest;
        self.last_poll = Some(now);
        self.phase = Phase::Rereading;
        let lines = if due {
            format_poll(poll, level, duty)
        } else {
            no_lines()
        };
        Report { lines, sample: None }
    }
}

/// Whether an action is the one that a state asks for.
pub open spec fn is_action(action: Action, state: ControlView) -> bool {
    match state.phase {
        Phase::Starting => action is ReadTemperature,
        Phase::Opening(command) => action == Action::SetDuty { percent: command.duty_percent },
        Phase::Devices => action is StartDevices,
        Phase::Resting(pause) => action == Action::Rest { pause },
        Phase::Reading => action is ReadTemperature,
        Phase::Applying(command) => action == Action::SetDuty { percent: command.duty_percent },
        Phase::Polling => action is PollDrives,
        Phase::Rereading => action is ReadTemperature,
        Phase::Switching => action is ReadSwitch,
        Phase::Reapplying(command) => action == Action::SetDuty { percent: command.duty_percent },
        Phase::Checking => action is LookForErrors,
        Phase::Closing => action is StopFan,
        Phase::Done => action is Finish,
        Phase::Failed => action matches Action::Fail { error } && error@ == state.failure,
    }
}

impl ControlView {
    /// What holds of every state of a run: the settings can be worked with, no
    /// duty is above the maximum, and a run of one round has no output.
    pub open spec fn sound(self) -> bool {
        &&& self.config.valid()
        &&& self.stabilizer.consistent()
        &&& self.stabilizer.output matches Some(duty) ==> duty <= self.config.fan_curve.ceiling()
        &&& self.pending() matches Some(command) ==> command.duty_percent
            <= self.config.fan_curve.ceiling()
        &&& self.has_output ==> !self.once
    }

    /// The command that is being carried out, if any.
    pub open spec fn pending(self) -> Option<FanCommand> {
        match self.phase {
            Phase::Opening(command) => Some(command),
            Phase::Applying(command) => Some(command),
            Phase::Reapplying(command) => Some(command),
            _ => None,
        }
    }

    /// The state after a row of events.
    pub open spec fn after<F: Fn(Binary64) -> String>(self, show: F, events: Seq<EventView>) -> ControlView
        decreases events.len(),
    {
        if events.len() == 0 {
            self
        } else {
            self.after(show, events.drop_last()).next(show, events.last()).state
        }
    }
}

proof fn lemma_command_sound(c: ControlView, enabled: bool, now: u128)
    requires
        c.sound(),
    ensures
        c.stabilized(enabled, now).consistent(),
        c.stabilized(enabled, now).output matches Some(duty) && duty
            <= c.config.fan_curve.ceiling(),
        c.command(enabled, now).duty_percent <= c.config.fan_curve.ceiling(),
{
    let curve = c.config.fan_curve;
    decision_honors_maximum(
        c.temperature,
        c.config.fan,
        c.hottest,
        c.config.fan_drives.thresholds,
        curve,
    );
    if enabled {
        if curve.enabled {
            output_honors_maximum(c.stabilizer, c.decision().duty_percent, curve, now);
        }
        let allowance = c.stabilizer.allowance(curve, now);
        assert(0 <= allowance % 1_000_000_000 < 1_000_000_000);
    }
}

proof fn lemma_temperature_sound<F: Fn(Binary64) -> String>(
    show: F,
    c: ControlView,
    reading: Result<Binary64, Seq<char>>,
    enabled: bool,
    now: u128,
)
    requires
        c.sound(),
    ensures
        c.on_temperature(show, reading, enabled, now).state.sound(),
        c.on_temperature(show, reading, enabled, now).state.config == c.config,
{
    reveal(ControlView::on_temperature);
    reveal(ControlView::started);
    reveal(ControlView::first_half);
    reveal(ControlView::second_half);
    lemma_command_sound(c.with_temperature(reading), enabled, now);
    decision_honors_maximum(
        acted_on(reading),
        c.config.fan,
        None,
        c.config.fan,
        c.config.fan_curve,
    );
}

proof fn lemma_duty_set_sound<F: Fn(Binary64) -> String>(
    show: F,
    c: ControlView,
    result: Result<bool, Seq<char>>,
    now: u128,
)
    requires
        c.sound(),
    ensures
        c.on_duty_set(show, result, now).state.sound(),
        c.on_duty_set(show, result, now).state.config == c.config,
{
    reveal(ControlView::on_duty_set);
    reveal(ControlView::carried_out);
}

/// No event makes a duty exceed the maximum, and none changes the settings.
pub proof fn events_keep_runs_sound<F: Fn(Binary64) -> String>(
    show: F,
    c: ControlView,
    event: EventView,
)
    requires
        c.sound(),
    ensures
        c.next(show, event).state.sound(),
        c.next(show, event).state.config == c.config,
{
    match event {
        EventView::Temperature { reading, enabled, now } => {
            lemma_temperature_sound(show, c, reading, enabled, now);
        },
        EventView::DutySet { result, now } => {
            lemma_duty_set_sound(show, c, result, now);
        },
        EventView::Switch { enabled, now } => {
            reveal(ControlView::second_half);
            lemma_command_sound(c, enabled, now);
        },
        EventView::Polled { poll, now } => {
            reveal(ControlView::polled);
        },
        EventView::Rested { stop } => {
            reveal(ControlView::on_rested);
        },
        EventView::DevicesStarted { display, button } => {
            reveal(ControlView::on_devices_started);
        },
        EventView::Checked { output, button, display } => {
            reveal(ControlView::on_checked);
        },
    }
}

/// In a run, whatever happens, no duty that the fan is given is above the
/// maximum.
pub proof fn maximum_holds_throughout<F: Fn(Binary64) -> String>(
    show: F,
    config: ConfigView,
    dry_run: bool,
    once: bool,
    events: Seq<EventView>,
)
    requires
        config.valid(),
    ensures
        initial(config, dry_run, once).after(show, events).sound(),
        initial(config, dry_run, once).after(show, events).config == config,
        initial(config, dry_run, once).after(show, events).pending() matches Some(command)
            ==> command.duty_percent <= config.fan_curve.ceiling(),
    decreases events.len(),
{
    let start = initial(config, dry_run, once);
    if events.len() > 0 {
        maximum_holds_throughout(show, config, dry_run, once, events.drop_last());
        events_keep_runs_sound(show, start.after(show, events.drop_last()), events.last());
    }
}

proof fn lemma_way_of_a_run<F: Fn(Binary64) -> String>(show: F, c: ControlView, event: EventView)
    ensures
        ({
            let then = c.next(show, event).state;
            let set = event matches EventView::DutySet { result, now: _ } && result is Ok;
            &&& then.config == c.config
            &&& then.has_output == c.has_output
            &&& !(c.phase is Polling) ==> then.hottest == c.hottest
            &&& !(c.phase is Polling) && then.phase is Polling ==> c.phase is Applying && set && (
            event matches EventView::DutySet { result: _, now } && c.poll_due(now))
            &&& !(c.phase is Devices) && then.phase is Devices ==> c.phase is Opening && set
            &&& !(c.phase is Done) && then.phase is Done ==> (c.phase is Closing && set) || (
            c.phase is Resting && !c.has_output) || c.once
        }),
{
    reveal(ControlView::started);
    reveal(ControlView::first_half);
    reveal(ControlView::second_half);
    reveal(ControlView::carried_out);
    reveal(ControlView::polled);
    reveal(ControlView::on_temperature);
    reveal(ControlView::on_duty_set);
    reveal(ControlView::on_rested);
    reveal(ControlView::on_devices_started);
    reveal(ControlView::on_checked);
}

/// The drives are polled only after a duty that is safe for the processor was
/// set.
pub proof fn duty_is_set_before_poll<F: Fn(Binary64) -> String>(
    show: F,
    c: ControlView,
    event: EventView,
)
    requires
        !(c.phase is Polling),
        c.next(show, event).state.phase is Polling,
    ensures
        c.phase is Applying,
        event matches EventView::DutySet { result, now: _ } && result is Ok,
{
    lemma_way_of_a_run(show, c, event);
}

/// The drives are polled only where that is configured, and no sooner than the
/// polling interval after the poll before.
pub proof fn polls_keep_their_interval<F: Fn(Binary64) -> String>(
    show: F,
    c: ControlView,
    event: EventView,
)
    requires
        !(c.phase is Polling),
        c.next(show, event).state.phase is Polling,
    ensures
        c.config.fan_drives.enabled,
        c.config.fan_drives.devices.len() > 0,
        event matches EventView::DutySet { result: _, now } && match c.last_poll {
            Some(last) => c.config.fan_drives.poll_seconds > 0 ==> now - last
                >= c.config.fan_drives.poll_seconds * 1_000_000_000,
            None => true,
        },
{
    lemma_way_of_a_run(show, c, event);
}

/// The display and the button are started only after the first duty was set.
pub proof fn duty_is_set_before_devices<F: Fn(Binary64) -> String>(
    show: F,
    c: ControlView,
    event: EventView,
)
    requires
        !(c.phase is Devices),
        c.next(show, event).state.phase is Devices,
    ensures
        c.phase is Opening,
        event matches EventView::DutySet { result, now: _ } && result is Ok,
{
    lemma_way_of_a_run(show, c, event);
}

/// A temperature that cannot be read makes a fan that is switched on run at its
/// maximum at once.
pub proof fn failed_sensor_runs_fan_at_maximum<F: Fn(Binary64) -> String>(
    show: F,
    c: ControlView,
    error: Seq<char>,
    now: u128,
)
    requires
        c.sound(),
        c.phase is Starting || c.phase is Reading || c.phase is Rereading,
    ensures
        ({
            let event = EventView::Temperature { reading: Err(error), enabled: true, now };
            c.next(show, event).state.pending() matches Some(command) && command.duty_percent
                == c.config.fan_curve.ceiling()
        }),
{
    reveal(ControlView::on_temperature);
    reveal(ControlView::started);
    reveal(ControlView::first_half);
    reveal(ControlView::second_half);
    let curve = c.config.fan_curve;
    let reading: Result<Binary64, Seq<char>> = Err(error);
    let known = c.with_temperature(reading);
    let nan = acted_on(reading);
    failed_sensor_asks_for_the_most(nan, c.config.fan, curve);
    decision_honors_maximum(
        nan,
        c.config.fan,
        c.hottest,
        c.config.fan_drives.thresholds,
        curve,
    );
    lemma_duty_range(nan, c.config.fan, curve);
    if let Some(celsius) = c.hottest {
        lemma_duty_range(celsius, c.config.fan_drives.thresholds, curve);
    }
    reveal(decision_for);
    assert(known.decision().duty_percent == curve.ceiling());
}

/// A fan that is switched off is given no duty, whatever the temperatures.
pub proof fn switched_off_fan_is_stopped<F: Fn(Binary64) -> String>(
    show: F,
    c: ControlView,
    reading: Result<Binary64, Seq<char>>,
    now: u128,
)
    ensures
        c.phase is Reading || c.phase is Rereading ==> {
            let event = EventView::Temperature { reading, enabled: false, now };
            c.next(show, event).state.pending() matches Some(command) && command.duty_percent == 0
        },
        c.phase is Switching ==> {
            let event = EventView::Switch { enabled: false, now };
            c.next(show, event).state.pending() matches Some(command) && command.duty_percent == 0
        },
{
    reveal(ControlView::on_temperature);
    reveal(ControlView::first_half);
    reveal(ControlView::second_half);
}

/// A run with an output ends well only after the fan was stopped, and every
/// request to stop leads there.
pub proof fn fan_is_stopped_at_the_end<F: Fn(Binary64) -> String>(
    show: F,
    c: ControlView,
    event: EventView,
)
    requires
        c.sound(),
        c.has_output,
    ensures
        !(c.phase is Done) && c.next(show, event).state.phase is Done ==> c.phase is Closing
            && (event matches EventView::DutySet { result, now: _ } && result is Ok),
        c.phase is Resting ==> c.next(show, EventView::Rested { stop: true }).state.phase
            is Closing,
{
    lemma_way_of_a_run(show, c, event);
    reveal(ControlView::on_rested);
}

/// A duty that cannot be set ends the run with the error.
pub proof fn failed_output_ends_the_run<F: Fn(Binary64) -> String>(
    show: F,
    c: ControlView,
    error: Seq<char>,
    now: u128,
)
    requires
        c.pending() is Some || c.phase is Closing,
    ensures
        ({
            let end = c.next(show, EventView::DutySet { result: Err(error), now }).state;
            end.phase is Failed && end.failure == error
        }),
{
    reveal(ControlView::on_duty_set);
}

/// An error of the output that is found at the end of a round ends the run with
/// a text of its own. One of the button does the same where there is none of the
/// output.
pub proof fn found_errors_end_the_run<F: Fn(Binary64) -> String>(
    show: F,
    c: ControlView,
    output: Option<Seq<char>>,
    button: Option<Seq<char>>,
    display: Option<Seq<char>>,
)
    requires
        c.phase is Checking,
    ensures
        ({
            let end = c.next(show, EventView::Checked { output, button, display }).state;
            &&& output matches Some(error) ==> end.phase is Failed && end.failure
                == "software PWM error: "@ + error
            &&& output is None ==> (button matches Some(error) ==> end.phase is Failed
                && end.failure == "button handler error: "@ + error)
            &&& end.phase is Failed <==> output is Some || button is Some
        }),
{
    reveal(ControlView::on_checked);
}

/// A display that fails, at the start or later, does not end the run.
pub proof fn display_is_optional<F: Fn(Binary64) -> String>(
    show: F,
    c: ControlView,
    error: Seq<char>,
)
    ensures
        c.phase is Devices ==> {
            let event = EventView::DevicesStarted { display: Err(error), button: None };
            c.next(show, event).state.phase is Resting
        },
        c.phase is Checking ==> {
            let event = EventView::Checked { output: None, button: None, display: Some(error) };
            c.next(show, event).state.phase is Resting
        },
{
    reveal(ControlView::on_devices_started);
    reveal(ControlView::on_checked);
}

/// Once a run is over, nothing changes it.
pub proof fn end_of_run_is_final<F: Fn(Binary64) -> String>(
    show: F,
    c: ControlView,
    event: EventView,
)
    requires
        c.phase is Done || c.phase is Failed,
    ensures
        c.next(show, event).state == c,
        c.next(show, event).lines.len() == 0,
        c.next(show, event).sample is None,
{
    reveal(ControlView::on_temperature);
    reveal(ControlView::on_duty_set);
    reveal(ControlView::on_devices_started);
    reveal(ControlView::on_checked);
    reveal(ControlView::on_rested);
}

/// Where drives do not count, none is ever polled and the processor alone
/// decides, whatever happens.
pub proof fn disabled_drives_never_count<F: Fn(Binary64) -> String>(
    show: F,
    config: ConfigView,
    dry_run: bool,
    once: bool,
    events: Seq<EventView>,
)
    requires
        !config.fan_drives.enabled || config.fan_drives.devices.len() == 0,
    ensures
        ({
            let c = initial(config, dry_run, once).after(show, events);
            &&& c.config == config
            &&& !(c.phase is Polling)
            &&& c.hottest is None
        }),
    decreases events.len(),
{
    if events.len() > 0 {
        disabled_drives_never_count(show, config, dry_run, once, events.drop_last());
        lemma_way_of_a_run(
            show,
            initial(config, dry_run, once).after(show, events.drop_last()),
            events.last(),
        );
    }
}

/// A dry run, and a run of one round, never has an output for the fan.
pub proof fn dry_runs_leave_the_fan_alone<F: Fn(Binary64) -> String>(
    show: F,
    config: ConfigView,
    dry_run: bool,
    once: bool,
    events: Seq<EventView>,
)
    ensures
        initial(config, dry_run, once).after(show, events).has_output == !(dry_run || once),
    decreases events.len(),
{
    if events.len() > 0 {
        dry_runs_leave_the_fan_alone(show, config, dry_run, once, events.drop_last());
        lemma_way_of_a_run(
            show,
            initial(config, dry_run, once).after(show, events.drop_last()),
            events.last(),
        );
    }
}

/// A run of one round is over when the last duty of the round is set.
pub proof fn one_round_is_enough<F: Fn(Binary64) -> String>(
    show: F,
    c: ControlView,
    command: FanCommand,
    changed: bool,
    now: u128,
)
    requires
        c.once,
        c.phase == Phase::Reapplying(command),
    ensures
        c.next(show, EventView::DutySet { result: Ok(changed), now }).state.phase is Done,
{
    reveal(ControlView::carried_out);
    reveal(ControlView::on_duty_set);
}

/// A fan test may not exceed the maximum of an enabled curve.
pub open spec fn test_duty_error(percent: u8, curve: FanCurveConfig) -> Option<Seq<char>> {
    if percent > curve.max_duty && curve.enabled {
        Some(
            "test fan duty "@ + decimal(percent as nat)
                + "% exceeds configured fan-curve max_duty "@ + decimal(curve.max_duty as nat)
                + "%"@,
        )
    } else {
        None
    }
}

/// Checks the duty of a fan test.
pub fn validate_test_fan_duty(percent: u8, curve: FanCurveConfig) -> (r: Result<(), String>)
    ensures
        match r {
            Ok(()) => test_duty_error(percent, curve) is None,
            Err(error) => test_duty_error(percent, curve) == Some(error@),
        },
{
    if curve.enabled && percent > curve.max_duty {
        let mut error = "test fan duty ".to_owned();
        push_decimal(&mut error, percent as u64);
        error.append("% exceeds configured fan-curve max_duty ");
        push_decimal(&mut error, curve.max_duty as u64);
        error.append("%");
        Err(error)
    } else {
        Ok(())
    }
}

} // verus!
