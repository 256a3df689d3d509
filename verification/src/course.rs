//! The course of a run: what each phase waits for, and what comes of it.

use vstd::prelude::*;

use crate::binary64::Binary64;
use crate::config::{FanCurveConfig, FanCurveTail};
use crate::control::{
    curve_line, startup_lines, test_duty_error, ControlView, EventView, FanCommand, Phase,
};
use crate::cpu_log::cpu_line;
use crate::decision::{decision_for, decision_says_who_asks_for_what};
use crate::drive_log::{drive_snapshot, poll_lines};
use crate::drives::{hottest_reading, hottest_reading_is_hottest, PollView};
use crate::fan::{duty_of, level_of};
use crate::fan_log::{fan_line, sample_line, snapshot_of, FanLogLine};
use crate::number::decimal;
use crate::split::comma_separated;

verus! {

/// What a temperature that was read, or could not be, is acted on as: itself, or
/// what is not a number.
pub open spec fn is_acted_on(reading: Result<Binary64, Seq<char>>, celsius: Binary64) -> bool {
    match reading {
        Ok(read) => celsius == read,
        Err(_) => celsius.is_nan(),
    }
}

/// The first duty is what the first temperature of the processor asks for, and is
/// given whether or not the fan is switched on; the drives do not count yet.
pub proof fn first_duty_is_that_of_the_processor<F: Fn(Binary64) -> String>(
    show: F,
    c: ControlView,
    reading: Result<Binary64, Seq<char>>,
    enabled: bool,
    now: u128,
)
    requires
        c.sound(),
        c.phase is Starting,
    ensures
        ({
            let next = c.next(show, EventView::Temperature { reading, enabled, now }).state;
            &&& is_acted_on(reading, next.temperature)
            &&& next.phase matches Phase::Opening(command) && command.enabled
                && command.duty_percent == duty_of(
                next.temperature,
                c.config.fan,
                c.config.fan_curve,
            ) && command.decision.hottest_drive_temp_c is None && command.decision.cpu_temp_c
                == next.temperature
            &&& next.stabilizer.output == Some(next.phase->Opening_0.duty_percent)
            &&& next.stabilizer.updated_at == now && next.stabilizer.credit == 0
            &&& next.hottest == c.hottest && next.last_poll == c.last_poll
        }),
{
    reveal(ControlView::on_temperature);
    reveal(ControlView::started);
    let next = c.next(show, EventView::Temperature { reading, enabled, now }).state;
    decision_says_who_asks_for_what(
        next.temperature,
        c.config.fan,
        None,
        c.config.fan,
        c.config.fan_curve,
    );
    crate::decision::without_drives_the_processor_decides(
        next.temperature,
        c.config.fan,
        c.config.fan,
        c.config.fan_curve,
    );
    crate::decision::decision_honors_maximum(
        next.temperature,
        c.config.fan,
        None,
        c.config.fan,
        c.config.fan_curve,
    );
}

/// Whether a command is what the temperatures of a state ask for: the decision on
/// the processor and the hottest drive, held steady where the fan is switched on,
/// and no duty where it is not.
pub open spec fn is_command_for(
    before: ControlView,
    after: ControlView,
    command: FanCommand,
    enabled: bool,
    now: u128,
) -> bool {
    let curve = before.config.fan_curve;
    let wanted = decision_for(
        after.temperature,
        before.config.fan,
        before.hottest,
        before.config.fan_drives.thresholds,
        curve,
    );
    &&& command.decision == wanted
    &&& command.enabled == enabled
    &&& enabled ==> after.stabilizer == before.stabilizer.updated(wanted.duty_percent, curve, now)
    &&& !enabled ==> after.stabilizer.credit == 0 && after.stabilizer.updated_at == now
    &&& after.stabilizer.output == Some(command.duty_percent)
    &&& !enabled ==> command.duty_percent == 0
    &&& after.hottest == before.hottest && after.last_poll == before.last_poll
}

/// In a round the fan is given what the temperature of the processor that was just
/// read, and the hottest drive of the last poll, ask for.
pub proof fn rounds_follow_both_temperatures<F: Fn(Binary64) -> String>(
    show: F,
    c: ControlView,
    reading: Result<Binary64, Seq<char>>,
    enabled: bool,
    now: u128,
)
    requires
        c.sound(),
    ensures
        ({
            let next = c.next(show, EventView::Temperature { reading, enabled, now }).state;
            &&& c.phase is Reading ==> is_acted_on(reading, next.temperature) && (
            next.phase matches Phase::Applying(command) && is_command_for(
                c,
                next,
                command,
                enabled,
                now,
            ))
            &&& c.phase is Rereading ==> is_acted_on(reading, next.temperature) && (
            next.phase matches Phase::Reapplying(command) && is_command_for(
                c,
                next,
                command,
                enabled,
                now,
            ))
        }),
        ({
            let next = c.next(show, EventView::Switch { enabled, now }).state;
            c.phase is Switching ==> next.temperature == c.temperature && (
            next.phase matches Phase::Reapplying(command) && is_command_for(
                c,
                next,
                command,
                enabled,
                now,
            ))
        }),
{
    reveal(ControlView::on_temperature);
    reveal(ControlView::first_half);
    reveal(ControlView::second_half);
}

/// A poll is taken in: the hottest drive that was read counts from then on, and
/// none does where none was read; the time of the poll is remembered.
pub proof fn polls_are_taken_in<F: Fn(Binary64) -> String>(
    show: F,
    c: ControlView,
    poll: PollView,
    now: u128,
    i: int,
)
    requires
        c.phase is Polling,
    ensures
        ({
            let next = c.next(show, EventView::Polled { poll, now }).state;
            &&& next.phase is Rereading
            &&& next.last_poll == Some(now)
            &&& poll.readings.len() == 0 ==> next.hottest is None
            &&& 0 <= i < poll.readings.len() && (forall|k: int|
                0 <= k < poll.readings.len() ==> (#[trigger] poll.readings[k]).1.current_celsius
                    <= poll.readings[i].1.current_celsius) ==> next.hottest == Some(
                Binary64::of_int(poll.readings[i].1.current_celsius as int),
            )
            &&& next.temperature == c.temperature && next.stabilizer == c.stabilizer
        }),
{
    reveal(ControlView::polled);
    hottest_reading_is_hottest(poll.readings);
    if 0 <= i < poll.readings.len() && (forall|k: int|
        0 <= k < poll.readings.len() ==> (#[trigger] poll.readings[k]).1.current_celsius
            <= poll.readings[i].1.current_celsius) {
        let hottest = hottest_reading(poll.readings)->0;
        let at = choose|at: int|
            #![trigger poll.readings[at]]
            0 <= at < poll.readings.len() && poll.readings[at] == hottest && (forall|k: int|
                0 <= k < poll.readings.len() ==> (#[trigger] poll.readings[k]).1.current_celsius
                    <= hottest.1.current_celsius) && (forall|k: int|
                at < k < poll.readings.len() ==> (#[trigger] poll.readings[k]).1.current_celsius
                    < hottest.1.current_celsius);
        assert(poll.readings[at].1.current_celsius <= poll.readings[i].1.current_celsius);
        assert(poll.readings[i].1.current_celsius <= hottest.1.current_celsius);
    }
}

/// Once the first duty of a round is set, the drives are polled exactly where they
/// count, some are listed, and the set number of seconds has passed since the last
/// poll, if there was one. Else the switch is looked at.
pub proof fn drives_are_polled_when_due<F: Fn(Binary64) -> String>(
    show: F,
    c: ControlView,
    changed: bool,
    now: u128,
)
    requires
        c.phase is Applying,
        c.config.fan_drives.poll_seconds > 0,
    ensures
        ({
            let next = c.next(show, EventView::DutySet { result: Ok(changed), now }).state;
            let waited = match c.last_poll {
                Some(last) => now - last >= c.config.fan_drives.poll_seconds * 1_000_000_000,
                None => true,
            };
            let due = c.config.fan_drives.enabled && c.config.fan_drives.devices.len() > 0 && waited;
            &&& due ==> next.phase is Polling
            &&& !due ==> next.phase is Switching
        }),
{
    reveal(ControlView::on_duty_set);
    reveal(ControlView::carried_out);
}

/// What each phase leads to once what it waits for has happened.
pub proof fn phases_have_their_order<F: Fn(Binary64) -> String>(
    show: F,
    c: ControlView,
    changed: bool,
    now: u128,
    stop: bool,
)
    ensures
        ({
            let set = c.next(show, EventView::DutySet { result: Ok(changed), now }).state;
            let rested = c.next(show, EventView::Rested { stop }).state;
            let fine = c.next(
                show,
                EventView::Checked { output: None, button: None, display: None },
            ).state;
            let ready = c.next(
                show,
                EventView::DevicesStarted { display: Ok(changed), button: None },
            ).state;
            &&& c.phase is Opening ==> set.phase is Devices
            &&& c.phase is Devices ==> ready.phase == Phase::Resting(0)
            &&& c.phase is Reapplying && c.once ==> set.phase is Done
            &&& c.phase is Reapplying && !c.once ==> set.phase is Checking
            &&& c.phase is Checking ==> fine.phase == Phase::Resting(1_000_000_000)
            &&& c.phase is Resting && !stop ==> rested.phase is Reading
            &&& c.phase is Resting && stop && c.has_output ==> rested.phase is Closing
            &&& c.phase is Resting && stop && !c.has_output ==> rested.phase is Done
            &&& c.phase is Closing ==> set.phase is Done
        }),
{
    reveal(ControlView::on_duty_set);
    reveal(ControlView::carried_out);
    reveal(ControlView::on_rested);
    reveal(ControlView::on_checked);
    reveal(ControlView::on_devices_started);
}

/// Whether a phase waits for an event.
pub open spec fn is_awaited(phase: Phase, event: EventView) -> bool {
    match event {
        EventView::Temperature { .. } => phase is Starting || phase is Reading || phase is Rereading,
        EventView::DutySet { .. } => phase is Opening || phase is Applying || phase is Reapplying
            || phase is Closing,
        EventView::DevicesStarted { .. } => phase is Devices,
        EventView::Checked { .. } => phase is Checking,
        EventView::Rested { .. } => phase is Resting,
        EventView::Switch { .. } => phase is Switching,
        EventView::Polled { .. } => phase is Polling,
    }
}

/// An event that is not waited for changes nothing and says nothing.
pub proof fn other_events_change_nothing<F: Fn(Binary64) -> String>(
    show: F,
    c: ControlView,
    event: EventView,
)
    requires
        !is_awaited(c.phase, event),
    ensures
        c.next(show, event).state == c,
        c.next(show, event).lines.len() == 0,
        c.next(show, event).sample is None,
{
    reveal(ControlView::on_temperature);
    reveal(ControlView::on_duty_set);
    reveal(ControlView::on_rested);
    reveal(ControlView::on_checked);
    reveal(ControlView::on_devices_started);
}

/// The settings of a run, and what kind of run it is, never change, and the
/// temperatures and the stabilizer change only where a phase waits for them.
pub proof fn runs_keep_what_they_are<F: Fn(Binary64) -> String>(
    show: F,
    c: ControlView,
    event: EventView,
)
    ensures
        ({
            let next = c.next(show, event).state;
            &&& next.config == c.config && next.has_output == c.has_output && next.once == c.once
                && next.sampling == c.sampling
            &&& !(event is Temperature) ==> next.temperature == c.temperature && next.cpu_error
                == c.cpu_error
            &&& !(event is Temperature) && !(event is Switch) ==> next.stabilizer == c.stabilizer
            &&& !(event is Polled) ==> next.hottest == c.hottest && next.last_poll == c.last_poll
                && next.drive_log == c.drive_log
            &&& !(event is DutySet) ==> next.fan_log == c.fan_log
        }),
{
    reveal(ControlView::started);
    reveal(ControlView::first_half);
    reveal(ControlView::second_half);
    reveal(ControlView::carried_out);
    reveal(ControlView::polled);
    reveal(ControlView::on_temperature);
    reveal(ControlView::on_duty_set);
    reveal(ControlView::on_rested);
    reveal(ControlView::on_checked);
    reveal(ControlView::on_devices_started);
}

/// A run without an output logs nothing of the fan after its first duty. A run
/// that samples gives one sample in each round, with the duty that is then set,
/// and no other run gives any.
pub proof fn samples_come_once_a_round<F: Fn(Binary64) -> String>(
    show: F,
    c: ControlView,
    event: EventView,
)
    ensures
        ({
            let next = c.next(show, event);
            &&& !c.has_output && (c.phase is Applying || c.phase is Reapplying) ==> next.lines.len()
                == 0
            &&& !c.sampling ==> next.sample is None
            &&& c.sampling ==> (next.sample is Some <==> !(c.phase is Reapplying)
                && next.state.phase is Reapplying)
            &&& c.sampling && !(c.phase is Reapplying) && next.state.phase is Reapplying
                ==> next.sample == Some(
                sample_line(
                    show,
                    next.state.phase->Reapplying_0.decision,
                    next.state.phase->Reapplying_0.duty_percent,
                ),
            )
        }),
{
    reveal(ControlView::started);
    reveal(ControlView::first_half);
    reveal(ControlView::second_half);
    reveal(ControlView::carried_out);
    reveal(ControlView::polled);
    reveal(ControlView::on_temperature);
    reveal(ControlView::on_duty_set);
    reveal(ControlView::on_rested);
    reveal(ControlView::on_checked);
    reveal(ControlView::on_devices_started);
}

/// A run starts with nothing known. It has an output for the fan unless it is a
/// dry run or a run of one round, which are the runs that print samples.
pub proof fn runs_start_with_nothing_known(
    config: crate::config::ConfigView,
    dry_run: bool,
    once: bool,
)
    ensures
        ({
            let c = crate::control::initial(config, dry_run, once);
            &&& c.config == config && c.phase is Starting
            &&& c.has_output <==> !dry_run && !once
            &&& c.sampling <==> dry_run || once
            &&& c.once == once
            &&& c.hottest is None && c.last_poll is None && c.cpu_error is None
            &&& c.stabilizer.output is None && c.fan_log.last is None && c.drive_log.last is None
        }),
{
}

/// With an output, a command that was carried out is logged where the log of the
/// fan is due, with the duty that was given, and the log takes note of it; the
/// first command is logged where it changed the duty.
pub proof fn commands_are_logged_when_due<F: Fn(Binary64) -> String>(
    show: F,
    c: ControlView,
    command: FanCommand,
    changed: bool,
    now: u128,
)
    requires
        c.phase == Phase::Applying(command) || c.phase == Phase::Reapplying(command) || c.phase
            == Phase::Opening(command),
    ensures
        ({
            let next = c.next(show, EventView::DutySet { result: Ok(changed), now });
            let most = if c.config.fan_curve.enabled {
                c.config.fan_curve.max_duty
            } else {
                100u8
            };
            let snapshot = snapshot_of(
                command.decision,
                command.duty_percent,
                command.enabled,
                most,
            );
            let line = FanLogLine {
                decision: command.decision,
                commanded_duty_percent: command.duty_percent,
                enabled: command.enabled,
            };
            let looked = if c.phase is Opening {
                changed
            } else {
                c.has_output
            };
            &&& looked && c.fan_log.is_due(snapshot, now) ==> next.lines == seq![
                fan_line(show, line),
            ]
            &&& !looked || !c.fan_log.is_due(snapshot, now) ==> next.lines.len() == 0
            &&& looked ==> next.state.fan_log == c.fan_log.looked_at(snapshot, now)
            &&& !looked ==> next.state.fan_log == c.fan_log
        }),
{
    reveal(ControlView::on_duty_set);
    reveal(ControlView::carried_out);
}

/// What a reading of the processor has to say is logged, in every phase that waits
/// for one; what a poll has to say is logged where the log of the drives is due,
/// with the level and the duty that the hottest drive asks for.
pub proof fn readings_and_polls_are_logged<F: Fn(Binary64) -> String>(
    show: F,
    c: ControlView,
    reading: Result<Binary64, Seq<char>>,
    enabled: bool,
    poll: PollView,
    now: u128,
)
    ensures
        c.phase is Starting || c.phase is Reading || c.phase is Rereading ==> {
            let next = c.next(show, EventView::Temperature { reading, enabled, now });
            &&& cpu_line(c.cpu_error, reading) matches Some(line) ==> next.lines == seq![line]
            &&& cpu_line(c.cpu_error, reading) is None ==> next.lines.len() == 0
            &&& next.state.cpu_error == match reading {
                Ok(_) => None,
                Err(error) => Some(error),
            }
        },
        c.phase is Polling ==> {
            let next = c.next(show, EventView::Polled { poll, now });
            let hottest = next.state.hottest;
            let thresholds = c.config.fan_drives.thresholds;
            let level = match hottest {
                Some(celsius) => Some(level_of(celsius, thresholds)),
                None => None,
            };
            let duty = match hottest {
                Some(celsius) => Some(duty_of(celsius, thresholds, c.config.fan_curve) as u8),
                None => None,
            };
            let snapshot = drive_snapshot(poll, level, duty);
            &&& c.drive_log.is_due(snapshot, now) ==> next.lines == poll_lines(poll, level, duty)
            &&& !c.drive_log.is_due(snapshot, now) ==> next.lines.len() == 0
            &&& next.state.drive_log == c.drive_log.looked_at(snapshot, now)
        },
{
    reveal(ControlView::on_temperature);
    reveal(ControlView::started);
    reveal(ControlView::first_half);
    reveal(ControlView::second_half);
    reveal(ControlView::polled);
}

/// A run tells at its start of the curve where it is enabled and of the drives
/// where they count, in this order; where they count and none is listed, it says
/// that the processor alone decides.
pub proof fn settings_are_told_at_the_start(config: crate::config::ConfigView)
    ensures
        ({
            let told = startup_lines(config);
            let curve = config.fan_curve.enabled;
            let drives = config.fan_drives.enabled;
            &&& told.len() == (if curve {
                1int
            } else {
                0
            }) + (if drives {
                1int
            } else {
                0
            })
            &&& curve ==> told[0] == curve_line(config.fan_curve)
            &&& drives && config.fan_drives.devices.len() == 0 ==> told.last()
                == "fan-drives: enabled but no devices are configured; using CPU temperature only"@
            &&& drives && config.fan_drives.devices.len() > 0 ==> told.last()
                == "fan-drives: enabled devices="@ + comma_separated(config.fan_drives.devices)
                + " poll_seconds="@ + decimal(config.fan_drives.poll_seconds as nat)
        }),
{
}

/// A duty can be tried up to the maximum of the curve where the curve is on, and any
/// duty where it is off; what is refused names both.
pub proof fn tried_duties_respect_the_maximum(percent: u8, curve: FanCurveConfig)
    ensures
        !curve.enabled || percent <= curve.max_duty ==> test_duty_error(percent, curve) is None,
        curve.enabled && percent > curve.max_duty ==> test_duty_error(percent, curve) == Some(
            "test fan duty "@ + decimal(percent as nat) + "% exceeds configured fan-curve max_duty "@
                + decimal(curve.max_duty as nat) + "%"@,
        ),
{
}

/// The line on the curve gives its duties in order, what it does above the last
/// point, and the rules that it keeps.
pub proof fn curve_is_told_in_order(curve: FanCurveConfig)
    ensures
        ({
            let duties = "fan-curve: enabled duties="@ + decimal(curve.duty0 as nat) + "/"@
                + decimal(curve.duty1 as nat) + "/"@ + decimal(curve.duty2 as nat) + "/"@ + decimal(
                curve.duty3 as nat,
            );
            let rules = decimal(curve.max_duty as nat) + " hysteresis="@ + decimal(
                curve.hysteresis as nat,
            ) + " ramp_down="@ + decimal(curve.ramp_down as nat) + "/s"@;
            &&& curve.tail == FanCurveTail::Hold ==> curve_line(curve) == duties
                + " tail=Hold max_duty="@ + rules
            &&& curve.tail == FanCurveTail::Extrapolate ==> curve_line(curve) == duties
                + " tail=Extrapolate max_duty="@ + rules
        }),
{
    reveal_strlit(" tail=");
    reveal_strlit("Hold");
    reveal_strlit("Extrapolate");
    reveal_strlit(" max_duty=");
    reveal_strlit(" tail=Hold max_duty=");
    reveal_strlit(" tail=Extrapolate max_duty=");
    assert(" tail=Hold max_duty="@ =~= " tail="@ + "Hold"@ + " max_duty="@);
    assert(" tail=Extrapolate max_duty="@ =~= " tail="@ + "Extrapolate"@ + " max_duty="@);
    let duties = "fan-curve: enabled duties="@ + decimal(curve.duty0 as nat) + "/"@ + decimal(
        curve.duty1 as nat,
    ) + "/"@ + decimal(curve.duty2 as nat) + "/"@ + decimal(curve.duty3 as nat);
    let rules = decimal(curve.max_duty as nat) + " hysteresis="@ + decimal(curve.hysteresis as nat)
        + " ramp_down="@ + decimal(curve.ramp_down as nat) + "/s"@;
    if curve.tail == FanCurveTail::Hold {
        assert(curve_line(curve) =~= duties + " tail=Hold max_duty="@ + rules);
    } else {
        assert(curve_line(curve) =~= duties + " tail=Extrapolate max_duty="@ + rules);
    }
}

/// How the display started is told first, before the settings, where there is an
/// output; why the display failed later is told when it does.
pub proof fn display_is_told_of<F: Fn(Binary64) -> String>(
    show: F,
    c: ControlView,
    display: Result<bool, Seq<char>>,
    error: Seq<char>,
)
    ensures
        c.phase is Devices ==> {
            let told = c.next(show, EventView::DevicesStarted { display, button: None }).lines;
            let line = match display {
                Ok(true) => "oled: initialized"@,
                Ok(false) => "oled: disabled because SDA/SCL are not configured"@,
                Err(why) => "oled: initialization failed; continuing without display: "@ + why,
            };
            told == if c.has_output {
                seq![line] + startup_lines(c.config)
            } else {
                startup_lines(c.config)
            }
        },
        c.phase is Checking ==> {
            let failed = EventView::Checked { output: None, button: None, display: Some(error) };
            let well = EventView::Checked { output: None, button: None, display: None };
            &&& c.next(show, failed).lines == seq![
                "oled: runtime error; display disabled: "@ + error,
            ]
            &&& c.next(show, well).lines.len() == 0
        },
{
    reveal(ControlView::on_devices_started);
    reveal(ControlView::on_checked);
}

/// A round is followed by a pause of one second, the start by none.
pub proof fn rounds_are_a_second_apart<F: Fn(Binary64) -> String>(
    show: F,
    c: ControlView,
    started: Result<bool, Seq<char>>,
    display: Option<Seq<char>>,
)
    ensures
        c.phase is Devices ==> c.next(
            show,
            EventView::DevicesStarted { display: started, button: None },
        ).state.phase == Phase::Resting(0),
        c.phase is Checking ==> c.next(
            show,
            EventView::Checked { output: None, button: None, display },
        ).state.phase == Phase::Resting(1_000_000_000),
{
    reveal(ControlView::on_devices_started);
    reveal(ControlView::on_checked);
}

} // verus!
