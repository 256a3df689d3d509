//! When the state of the fan is logged, and how.
//!
//! Points in time and spans of time are whole numbers of nanoseconds.

use vstd::prelude::*;
use vstd::string::*;

use crate::binary64::Binary64;
use crate::decision::FanDecision;
use crate::fan::{level_label, FanLevel};
use crate::number::{decimal, push_decimal, push_two_digits, two_digits};
use crate::reader::{is_printer, print, shown};
use crate::text::maybe_text;

verus! {

/// A change of the duty, in percentage points, that is large.
pub const FAN_LOG_IMMEDIATE_DUTY_CHANGE: u8 = 10;

/// The shortest time between two lines on large changes.
pub const FAN_LOG_MIN_INTERVAL: u128 = 10_000_000_000;

/// The time after which small changes are worth a line.
pub const FAN_LOG_MAX_QUIET: u128 = 60_000_000_000;

/// What the log says of the fan.
#[derive(Debug, Clone, Copy, PartialEq, Eq, Structural)]
pub struct FanLogSnapshot {
    pub cpu_level: FanLevel,
    pub drive_level: Option<FanLevel>,
    pub level: FanLevel,
    pub duty_percent: u8,
    pub enabled: bool,
    pub at_maximum: bool,
}

/// What the log last said of the fan, and when.
#[derive(Debug, Clone, Copy)]
pub struct FanLogState {
    pub last: Option<FanLogSnapshot>,
    pub last_logged_at: Option<u128>,
}

impl Default for FanLogState {
    fn default() -> (r: Self)
        ensures
            r.last is None,
            r.last_logged_at is None,
    {
        FanLogState { last: None, last_logged_at: None }
    }
}

/// The distance of two numbers.
pub open spec fn distance(a: u8, b: u8) -> int {
    if a >= b {
        a - b
    } else {
        b - a
    }
}

/// Whether a span of time has passed since a point in time, if there is one.
pub open spec fn has_passed(since: Option<u128>, now: u128, span: u128) -> bool {
    match since {
        Some(since) => now - since >= span || span == 0,
        None => true,
    }
}

/// Tests whether a span of time has passed.
pub fn passed(since: Option<u128>, now: u128, span: u128) -> (r: bool)
    ensures
        r == has_passed(since, now, span),
{
    match since {
        Some(since) => {
            let elapsed: u128 = if now >= since {
                now - since
            } else {
                0
            };
            elapsed >= span
        },
        None => true,
    }
}

/// What the log can say of a decision and a duty.
pub open spec fn snapshot_of(
    decision: FanDecision,
    duty_percent: u8,
    enabled: bool,
    maximum_duty: u8,
) -> FanLogSnapshot {
    FanLogSnapshot {
        cpu_level: decision.cpu_level,
        drive_level: decision.drive_level,
        level: decision.level,
        duty_percent,
        enabled,
        at_maximum: duty_percent >= maximum_duty,
    }
}

impl FanLogSnapshot {
    /// Whether a boundary was crossed that matters at once: the fan was switched
    /// on or off, started or stopped, or has come to its maximum.
    pub open spec fn crosses_boundary(self, next: FanLogSnapshot) -> bool {
        ||| self.enabled != next.enabled
        ||| (self.duty_percent == 0) != (next.duty_percent == 0)
        ||| !self.at_maximum && next.at_maximum
    }

    /// Whether anything else has changed.
    pub open spec fn drifts(self, next: FanLogSnapshot) -> bool {
        ||| self.cpu_level != next.cpu_level
        ||| self.drive_level != next.drive_level
        ||| self.level != next.level
        ||| self.at_maximum && !next.at_maximum
        ||| self.duty_percent != next.duty_percent
    }
}

impl FanLogState {
    /// Whether a line is due.
    pub open spec fn is_due(self, next: FanLogSnapshot, now: u128) -> bool {
        match self.last {
            None => true,
            Some(last) => {
                ||| last.crosses_boundary(next)
                ||| distance(last.duty_percent, next.duty_percent) >= 10 && has_passed(
                    self.last_logged_at,
                    now,
                    FAN_LOG_MIN_INTERVAL,
                )
                ||| last.drifts(next) && has_passed(self.last_logged_at, now, FAN_LOG_MAX_QUIET)
            },
        }
    }

    /// The state after a look at it.
    pub open spec fn looked_at(self, next: FanLogSnapshot, now: u128) -> FanLogState {
        if self.is_due(next, now) {
            FanLogState { last: Some(next), last_logged_at: Some(now) }
        } else {
            self
        }
    }

    /// Tests whether a line is due, and takes note of it.
    pub fn should_log(
        &mut self,
        decision: &FanDecision,
        duty_percent: u8,
        enabled: bool,
        maximum_duty: u8,
        now: u128,
    ) -> (r: bool)
        ensures
            r == old(self).is_due(snapshot_of(*decision, duty_percent, enabled, maximum_duty), now),
            *final(self) == old(self).looked_at(
                snapshot_of(*decision, duty_percent, enabled, maximum_duty),
                now,
            ),
    {
        let snapshot = FanLogSnapshot {
            cpu_level: decision.cpu_level,
            drive_level: decision.drive_level,
            level: decision.level,
            duty_percent,
            enabled,
            at_maximum: duty_percent >= maximum_duty,
        };
        let due = match self.last {
            None => true,
            Some(last) => {
                let same_drive_level = match (last.drive_level, snapshot.drive_level) {
                    (Some(a), Some(b)) => a == b,
                    (None, None) => true,
                    _ => false,
                };
                let level_changed = last.cpu_level != snapshot.cpu_level || !same_drive_level
                    || last.level != snapshot.level;
                let immediate_boundary_changed = last.enabled != snapshot.enabled || (
                last.duty_percent == 0) != (snapshot.duty_percent == 0);
                let entered_maximum = !last.at_maximum && snapshot.at_maximum;
                let left_maximum = last.at_maximum && !snapshot.at_maximum;
                let duty_change: u8 = if last.duty_percent >= snapshot.duty_percent {
                    last.duty_percent - snapshot.duty_percent
                } else {
                    snapshot.duty_percent - last.duty_percent
                };
                let minimum_interval_elapsed = passed(
                    self.last_logged_at,
                    now,
                    FAN_LOG_MIN_INTERVAL,
                );
                let quiet_period_elapsed = passed(self.last_logged_at, now, FAN_LOG_MAX_QUIET);
                immediate_boundary_changed || entered_maximum || (duty_change
                    >= FAN_LOG_IMMEDIATE_DUTY_CHANGE && minimum_interval_elapsed) || ((
                level_changed || left_maximum || duty_change > 0) && quiet_period_elapsed)
            },
        };
        if due {
            self.last = Some(snapshot);
            self.last_logged_at = Some(now);
        }
        due
    }
}

/// A boundary is logged at once.
pub proof fn boundaries_are_logged_at_once(
    state: FanLogState,
    last: FanLogSnapshot,
    next: FanLogSnapshot,
    now: u128,
)
    requires
        state.last == Some(last),
        last.crosses_boundary(next),
    ensures
        state.is_due(next, now),
        state.looked_at(next, now).last == Some(next),
{
}

/// Where no boundary is crossed, two lines on large changes are at least ten
/// seconds apart, and a line on smaller changes comes at least a minute after
/// the line before.
pub proof fn routine_lines_keep_their_distance(
    state: FanLogState,
    last: FanLogSnapshot,
    since: u128,
    next: FanLogSnapshot,
    now: u128,
)
    requires
        state.last == Some(last),
        state.last_logged_at == Some(since),
        !last.crosses_boundary(next),
        state.is_due(next, now),
    ensures
        now - since >= FAN_LOG_MIN_INTERVAL,
        distance(last.duty_percent, next.duty_percent) < 10 ==> now - since >= FAN_LOG_MAX_QUIET,
{
}

/// What has changed is logged once a minute has passed, and what has not changed
/// is not logged.
pub proof fn changes_are_logged_in_time(
    state: FanLogState,
    last: FanLogSnapshot,
    next: FanLogSnapshot,
    now: u128,
)
    requires
        state.last == Some(last),
    ensures
        last.drifts(next) && has_passed(state.last_logged_at, now, FAN_LOG_MAX_QUIET)
            ==> state.is_due(next, now),
        last == next ==> !state.is_due(next, now),
{
}

/// A line on the fan.
#[derive(Debug, Clone, Copy, PartialEq, Eq)]
pub struct FanLogLine {
    pub decision: FanDecision,
    pub commanded_duty_percent: u8,
    pub enabled: bool,
}

/// A level and a duty, as the log gives them.
pub open spec fn level_and_duty(level: FanLevel, duty: u8) -> Seq<char> {
    level_label(level) + "/"@ + decimal(duty as nat) + "%"@
}

/// The temperature of the processor, as the log gives it.
pub open spec fn cpu_part<F: Fn(Binary64) -> String>(show: F, d: FanDecision) -> Seq<char> {
    if d.cpu_temp_c.is_finite() {
        shown(show, d.cpu_temp_c) + "C/"@
    } else {
        "err/"@
    }
}

/// What the drives ask for, as the log gives it.
pub open spec fn drive_part<F: Fn(Binary64) -> String>(show: F, d: FanDecision) -> Seq<char> {
    match (d.hottest_drive_temp_c, d.drive_level, d.drive_duty_percent) {
        (Some(celsius), Some(level), Some(duty)) => shown(show, celsius) + "C/"@ + level_and_duty(
            level,
            duty,
        ),
        _ => "-"@,
    }
}

/// The text of a line, where `show` prints temperatures.
pub open spec fn fan_line<F: Fn(Binary64) -> String>(show: F, line: FanLogLine) -> Seq<char> {
    let d = line.decision;
    let switch = if line.enabled {
        "on"@
    } else {
        "off"@
    };
    "fan: cpu="@ + cpu_part(show, d) + level_and_duty(d.cpu_level, d.cpu_duty_percent) + " drv="@
        + drive_part(show, d) + " target="@ + level_and_duty(d.level, d.duty_percent) + " out="@
        + decimal(line.commanded_duty_percent as nat) + "% "@ + switch
}

fn level_text(level: FanLevel, duty: u8) -> (r: String)
    ensures
        r@ == level_and_duty(level, duty),
{
    let mut out = level.label().to_owned();
    out.append("/");
    push_decimal(&mut out, duty as u64);
    out.append("%");
    out
}

fn cpu_text<F: Fn(Binary64) -> String>(show: &F, d: &FanDecision) -> (r: String)
    requires
        is_printer(*show),
    ensures
        r@ == cpu_part(*show, *d),
{
    if d.cpu_temp_c.finite_test() {
        let mut out = print(show, d.cpu_temp_c);
        out.append("C/");
        out
    } else {
        "err/".to_owned()
    }
}

fn drive_text<F: Fn(Binary64) -> String>(show: &F, d: &FanDecision) -> (r: String)
    requires
        is_printer(*show),
    ensures
        r@ == drive_part(*show, *d),
{
    match (d.hottest_drive_temp_c, d.drive_level, d.drive_duty_percent) {
        (Some(celsius), Some(level), Some(duty)) => {
            let mut out = print(show, celsius);
            out.append("C/");
            out.append(level_text(level, duty).as_str());
            out
        },
        _ => "-".to_owned(),
    }
}

impl FanLogLine {
    /// Gives the text of the line.
    pub fn text<F: Fn(Binary64) -> String>(&self, show: &F) -> (r: String)
        requires
            is_printer(*show),
        ensures
            r@ == fan_line(*show, *self),
    {
        let d = &self.decision;
        let mut out = "fan: cpu=".to_owned();
        out.append(cpu_text(show, d).as_str());
        out.append(level_text(d.cpu_level, d.cpu_duty_percent).as_str());
        out.append(" drv=");
        out.append(drive_text(show, d).as_str());
        out.append(" target=");
        out.append(level_text(d.level, d.duty_percent).as_str());
        out.append(" out=");
        push_decimal(&mut out, self.commanded_duty_percent as u64);
        out.append("% ");
        if self.enabled {
            out.append("on");
        } else {
            out.append("off");
        }
        out
    }
}

/// A level by its full name.
pub open spec fn level_name(level: FanLevel) -> Seq<char> {
    match level {
        FanLevel::Off => "Off"@,
        FanLevel::Lv0 => "Lv0"@,
        FanLevel::Lv1 => "Lv1"@,
        FanLevel::Lv2 => "Lv2"@,
        FanLevel::Lv3 => "Lv3"@,
    }
}

fn name_of(level: FanLevel) -> (r: &'static str)
    ensures
        r@ == level_name(level),
{
    match level {
        FanLevel::Off => "Off",
        FanLevel::Lv0 => "Lv0",
        FanLevel::Lv1 => "Lv1",
        FanLevel::Lv2 => "Lv2",
        FanLevel::Lv3 => "Lv3",
    }
}

/// A text that may be missing, marked as such.
pub open spec fn optional(text: Option<Seq<char>>) -> Seq<char> {
    match text {
        Some(text) => "Some("@ + text + ")"@,
        None => "None"@,
    }
}

fn optional_text(text: Option<String>) -> (r: String)
    ensures
        r@ == optional(maybe_text(text)),
{
    match text {
        Some(text) => {
            let mut out = "Some(".to_owned();
            out.append(text.as_str());
            out.append(")");
            out
        },
        None => "None".to_owned(),
    }
}

/// What is left of the whole, as a number with two decimals; below zero where
/// there is more than the whole.
pub open spec fn rest_of_whole(percent: u8) -> Seq<char> {
    if percent > 100 {
        "-"@ + decimal((percent - 100) as nat / 100) + "."@ + two_digits(
            (percent - 100) as nat % 100,
        )
    } else {
        decimal((100 - percent) as nat / 100) + "."@ + two_digits((100 - percent) as nat % 100)
    }
}

fn rest_text(percent: u8) -> (r: String)
    ensures
        r@ == rest_of_whole(percent),
{
    let mut out = String::new();
    let rest: u64 = if percent > 100 {
        out.append("-");
        (percent - 100) as u64
    } else {
        (100 - percent) as u64
    };
    push_decimal(&mut out, rest / 100);
    out.append(".");
    push_two_digits(&mut out, rest % 100);
    assert(out@ =~= rest_of_whole(percent));
    out
}

/// The text of a single sample, where `show` prints temperatures.
pub open spec fn sample_line<F: Fn(Binary64) -> String>(show: F, d: FanDecision, commanded: u8) -> Seq<
    char,
> {
    "cpu_temp_c="@ + shown(show, d.cpu_temp_c) + " cpu_level="@ + level_name(d.cpu_level)
        + " cpu_duty_percent="@ + decimal(d.cpu_duty_percent as nat) + " hottest_drive_temp_c="@
        + optional(
        match d.hottest_drive_temp_c {
            Some(celsius) => Some(shown(show, celsius)),
            None => None,
        },
    ) + " drive_level="@ + optional(
        match d.drive_level {
            Some(level) => Some(level_name(level)),
            None => None,
        },
    ) + " drive_duty_percent="@ + optional(
        match d.drive_duty_percent {
            Some(duty) => Some(decimal(duty as nat)),
            None => None,
        },
    ) + " fan_level="@ + level_name(d.level) + " target_duty_percent="@ + decimal(
        d.duty_percent as nat,
    ) + " duty_percent="@ + decimal(commanded as nat) + " active_low_duty="@ + rest_of_whole(
        commanded,
    )
}

/// Gives the text of a single sample.
pub fn format_sample<F: Fn(Binary64) -> String>(show: &F, d: &FanDecision, commanded: u8) -> (r: String)
    requires
        is_printer(*show),
    ensures
        r@ == sample_line(*show, *d, commanded),
{
    let mut out = "cpu_temp_c=".to_owned();
    out.append(print(show, d.cpu_temp_c).as_str());
    out.append(" cpu_level=");
    out.append(name_of(d.cpu_level));
    out.append(" cpu_duty_percent=");
    push_decimal(&mut out, d.cpu_duty_percent as u64);
    out.append(" hottest_drive_temp_c=");
    let celsius = match d.hottest_drive_temp_c {
        Some(celsius) => Some(print(show, celsius)),
        None => None,
    };
    out.append(optional_text(celsius).as_str());
    out.append(" drive_level=");
    let level = match d.drive_level {
        Some(level) => Some(name_of(level).to_owned()),
        None => None,
    };
    out.append(optional_text(level).as_str());
    out.append(" drive_duty_percent=");
    let duty = match d.drive_duty_percent {
        Some(duty) => {
            let mut text = String::new();
            push_decimal(&mut text, duty as u64);
            assert(text@ =~= decimal(duty as nat));
            Some(text)
        },
        None => None,
    };
    out.append(optional_text(duty).as_str());
    out.append(" fan_level=");
    out.append(name_of(d.level));
    out.append(" target_duty_percent=");
    push_decimal(&mut out, d.duty_percent as u64);
    out.append(" duty_percent=");
    push_decimal(&mut out, commanded as u64);
    out.append(" active_low_duty=");
    out.append(rest_text(commanded).as_str());
    out
}

/// A fan that is switched on or off, that starts or stops, or that comes to its
/// maximum, is logged at once, and so is the first state of all.
pub proof fn turning_points_are_logged_at_once(state: FanLogState, next: FanLogSnapshot, now: u128)
    ensures
        state.last is None ==> state.is_due(next, now),
        state.last matches Some(last) ==> {
            &&& last.enabled != next.enabled ==> state.is_due(next, now)
            &&& last.duty_percent == 0 && next.duty_percent > 0 ==> state.is_due(next, now)
            &&& last.duty_percent > 0 && next.duty_percent == 0 ==> state.is_due(next, now)
            &&& !last.at_maximum && next.at_maximum ==> state.is_due(next, now)
        },
{
}

/// A fan that keeps running, switched on or off as it was, and does not come to
/// its maximum, is logged ten seconds after the last line where its duty has
/// moved by ten percentage points or more, and a minute after it where anything
/// about it has changed. It is not logged otherwise.
pub proof fn running_fan_is_logged_in_time(
    state: FanLogState,
    last: FanLogSnapshot,
    since: u128,
    next: FanLogSnapshot,
    now: u128,
)
    requires
        state.last == Some(last),
        state.last_logged_at == Some(since),
        last.enabled == next.enabled,
        last.duty_percent > 0 <==> next.duty_percent > 0,
        last.at_maximum || !next.at_maximum,
    ensures
        ({
            let far = last.duty_percent - next.duty_percent >= 10 || next.duty_percent
                - last.duty_percent >= 10;
            let seconds = now - since;
            &&& far && seconds >= 10_000_000_000 ==> state.is_due(next, now)
            &&& last != next && seconds >= 60_000_000_000 ==> state.is_due(next, now)
            &&& seconds < 10_000_000_000 ==> !state.is_due(next, now)
            &&& !far && seconds < 60_000_000_000 ==> !state.is_due(next, now)
            &&& last == next ==> !state.is_due(next, now)
        }),
{
}

/// The log takes note of what it says and when, and of nothing else.
pub proof fn log_remembers_what_it_said(state: FanLogState, next: FanLogSnapshot, now: u128)
    ensures
        state.is_due(next, now) ==> state.looked_at(next, now).last == Some(next) && state.looked_at(
            next,
            now,
        ).last_logged_at == Some(now),
        !state.is_due(next, now) ==> state.looked_at(next, now) == state,
{
}

/// The log is about what the fan was given, not about what was asked for; it is
/// at its maximum from the maximum on.
pub proof fn log_is_about_the_given_duty(
    decision: FanDecision,
    duty_percent: u8,
    enabled: bool,
    maximum_duty: u8,
)
    ensures
        ({
            let s = snapshot_of(decision, duty_percent, enabled, maximum_duty);
            &&& s.duty_percent == duty_percent && s.enabled == enabled
            &&& s.at_maximum <==> duty_percent >= maximum_duty
            &&& s.cpu_level == decision.cpu_level && s.drive_level == decision.drive_level
                && s.level == decision.level
        }),
{
}

/// A line ends with the duty that the fan was given and with whether it is
/// switched on; what comes before does not depend on these.
pub proof fn line_ends_with_output_and_switch<F: Fn(Binary64) -> String>(
    show: F,
    decision: FanDecision,
    a: u8,
    b: u8,
)
    ensures
        ({
            let on = |duty: u8|
                fan_line(
                    show,
                    FanLogLine { decision, commanded_duty_percent: duty, enabled: true },
                );
            let off = |duty: u8|
                fan_line(
                    show,
                    FanLogLine { decision, commanded_duty_percent: duty, enabled: false },
                );
            exists|start: Seq<char>|
                #![trigger start + " out="@]
                on(a) == start + " out="@ + decimal(a as nat) + "% "@ + "on"@ && on(b) == start
                    + " out="@ + decimal(b as nat) + "% "@ + "on"@ && off(a) == start + " out="@
                    + decimal(a as nat) + "% "@ + "off"@ && crate::text::contains(
                    start,
                    level_label(decision.level) + "/"@ + decimal(decision.duty_percent as nat) + "%"@,
                )
        }),
{
    let d = decision;
    let target = level_and_duty(d.level, d.duty_percent);
    let head = "fan: cpu="@ + cpu_part(show, d) + level_and_duty(d.cpu_level, d.cpu_duty_percent)
        + " drv="@ + drive_part(show, d) + " target="@;
    let start = head + target;
    assert(start.subrange(head.len() as int, start.len() as int) =~= target);
    assert(crate::text::occurs_at(start, target, head.len() as int));
    let line = start + " out="@;
}

/// A temperature that is no finite number is shown as an error, and every other as
/// a number of degrees; drives that nothing is known of are shown as a dash.
pub proof fn line_shows_temperatures<F: Fn(Binary64) -> String>(show: F, d: FanDecision)
    ensures
        !d.cpu_temp_c.is_finite() ==> cpu_part(show, d) == "err/"@,
        d.cpu_temp_c.is_finite() ==> cpu_part(show, d) == shown(show, d.cpu_temp_c) + "C/"@,
        d.hottest_drive_temp_c is None ==> drive_part(show, d) == "-"@,
        d.hottest_drive_temp_c matches Some(celsius) ==> (d.drive_level matches Some(level) ==> (
        d.drive_duty_percent matches Some(duty) ==> drive_part(show, d) == shown(show, celsius)
            + "C/"@ + level_label(level) + "/"@ + decimal(duty as nat) + "%"@)),
{
    if let (Some(celsius), Some(level), Some(duty)) = (
        d.hottest_drive_temp_c,
        d.drive_level,
        d.drive_duty_percent,
    ) {
        assert(shown(show, celsius) + "C/"@ + level_and_duty(level, duty) =~= shown(show, celsius)
            + "C/"@ + level_label(level) + "/"@ + decimal(duty as nat) + "%"@);
    }
}

/// The share of a wire that is active while it is low is shown with two decimals:
/// together with the duty it makes up the whole.
pub proof fn rest_of_whole_makes_up_the_whole(percent: u8)
    requires
        percent <= 100,
    ensures
        percent == 0 ==> rest_of_whole(percent) == decimal(1) + "."@ + two_digits(0),
        percent > 0 ==> rest_of_whole(percent) == decimal(0) + "."@ + two_digits(
            (100 - percent) as nat,
        ),
{
}

/// A line says in turn what the processor asks for, what the drives ask for, what is
/// aimed at and what is put out, and whether the fan is switched on.
pub proof fn line_tells_both_demands<F: Fn(Binary64) -> String>(show: F, line: FanLogLine)
    ensures
        ({
            let d = line.decision;
            fan_line(show, line) == "fan: cpu="@ + cpu_part(show, d) + (level_label(d.cpu_level)
                + "/"@ + decimal(d.cpu_duty_percent as nat) + "%"@) + " drv="@ + drive_part(show, d)
                + " target="@ + (level_label(d.level) + "/"@ + decimal(d.duty_percent as nat) + "%"@)
                + " out="@ + decimal(line.commanded_duty_percent as nat) + "% "@ + if line.enabled {
                "on"@
            } else {
                "off"@
            }
        }),
{
}

/// A sample gives each number under its own name, and what is not known as missing.
pub proof fn sample_names_each_number<F: Fn(Binary64) -> String>(
    show: F,
    d: FanDecision,
    commanded: u8,
    celsius: Binary64,
    level: FanLevel,
    duty: u8,
)
    ensures
        ({
            let start = "cpu_temp_c="@ + shown(show, d.cpu_temp_c) + " cpu_level="@ + level_name(
                d.cpu_level,
            ) + " cpu_duty_percent="@ + decimal(d.cpu_duty_percent as nat)
                + " hottest_drive_temp_c="@;
            let line = sample_line(show, d, commanded);
            &&& d.hottest_drive_temp_c is None && d.drive_level is None && d.drive_duty_percent
                is None ==> line == start + "None"@ + " drive_level="@ + "None"@
                + " drive_duty_percent="@ + "None"@ + " fan_level="@ + level_name(d.level)
                + " target_duty_percent="@ + decimal(d.duty_percent as nat) + " duty_percent="@
                + decimal(commanded as nat) + " active_low_duty="@ + rest_of_whole(commanded)
            &&& d.hottest_drive_temp_c == Some(celsius) && d.drive_level == Some(level)
                && d.drive_duty_percent == Some(duty) ==> line == start + ("Some("@ + shown(
                show,
                celsius,
            ) + ")"@) + " drive_level="@ + ("Some("@ + level_name(level) + ")"@)
                + " drive_duty_percent="@ + ("Some("@ + decimal(duty as nat) + ")"@) + " fan_level="@
                + level_name(d.level) + " target_duty_percent="@ + decimal(d.duty_percent as nat)
                + " duty_percent="@ + decimal(commanded as nat) + " active_low_duty="@
                + rest_of_whole(commanded)
        }),
        level_name(FanLevel::Off) == "Off"@,
        level_name(FanLevel::Lv0) == "Lv0"@,
        level_name(FanLevel::Lv1) == "Lv1"@,
        level_name(FanLevel::Lv2) == "Lv2"@,
        level_name(FanLevel::Lv3) == "Lv3"@,
{
}

} // verus!
