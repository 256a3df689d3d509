//! When the temperatures of the drives are logged, and how.
//!
//! Points in time and spans of time are whole numbers of nanoseconds.

use vstd::prelude::*;
use vstd::slice::slice_subrange;
use vstd::string::*;

use crate::drives::{
    hottest_reading, reading_views, DriveTemperatureFailure, DriveTemperaturePoll,
    DriveTemperatureReading, PollView,
};
use crate::fan::{level_label, FanLevel};
use crate::fan_log::{distance, has_passed, passed};
use crate::number::{decimal, decimal_int, push_decimal, push_int};
use crate::smart::DriveTemperature;
use crate::split::views;
use crate::text::{chars_of, has_prefix, same_str, starts_with, string_of};

verus! {

/// A change of the duty, in percentage points, that is large.
pub const DRIVE_LOG_IMMEDIATE_DUTY_CHANGE: u8 = 10;

/// The time after which small changes are worth a line.
pub const DRIVE_LOG_MAX_QUIET: u128 = 600_000_000_000;

/// A drive that could not be read, and why, as far as it matters to the log.
#[derive(Debug, Clone, PartialEq, Eq)]
pub struct DriveFailureLogKey {
    pub device: String,
    pub error: String,
}

/// What the log says of the drives.
#[derive(Debug, Clone, PartialEq, Eq)]
pub struct DriveLogSnapshot {
    pub level: Option<FanLevel>,
    pub duty_percent: Option<u8>,
    pub standby_devices: Vec<String>,
    pub failures: Vec<DriveFailureLogKey>,
}

/// What the log says of the drives, as mathematical data.
pub struct DriveSnapshotView {
    pub level: Option<FanLevel>,
    pub duty_percent: Option<u8>,
    pub standby: Seq<Seq<char>>,
    pub failures: Seq<(Seq<char>, Seq<char>)>,
}

/// Failures as mathematical data.
pub open spec fn key_views(failures: Seq<DriveFailureLogKey>) -> Seq<(Seq<char>, Seq<char>)> {
    Seq::new(failures.len(), |i: int| (failures[i].device@, failures[i].error@))
}

impl View for DriveLogSnapshot {
    type V = DriveSnapshotView;

    open spec fn view(&self) -> DriveSnapshotView {
        DriveSnapshotView {
            level: self.level,
            duty_percent: self.duty_percent,
            standby: views(self.standby_devices@),
            failures: key_views(self.failures@),
        }
    }
}

/// What the log last said of the drives, and when.
#[derive(Debug, Clone)]
pub struct DriveLogState {
    pub last: Option<DriveLogSnapshot>,
    pub last_logged_at: Option<u128>,
}

/// What the log last said of the drives, as mathematical data.
pub struct DriveLogView {
    pub last: Option<DriveSnapshotView>,
    pub last_logged_at: Option<u128>,
}

impl View for DriveLogState {
    type V = DriveLogView;

    open spec fn view(&self) -> DriveLogView {
        DriveLogView {
            last: match self.last {
                Some(last) => Some(last@),
                None => None,
            },
            last_logged_at: self.last_logged_at,
        }
    }
}

impl Default for DriveLogState {
    fn default() -> (r: Self)
        ensures
            r@ == (DriveLogView { last: None, last_logged_at: None }),
    {
        DriveLogState { last: None, last_logged_at: None }
    }
}

impl DriveSnapshotView {
    /// Whether the status of a drive or the level has changed.
    pub open spec fn changes_status(self, next: DriveSnapshotView) -> bool {
        self.level != next.level || self.standby != next.standby || self.failures != next.failures
    }

    /// How far the duty has moved, where it is known.
    pub open spec fn movement(self, next: DriveSnapshotView) -> int {
        match (self.duty_percent, next.duty_percent) {
            (Some(a), Some(b)) => distance(a, b),
            _ => 0,
        }
    }
}

impl DriveLogView {
    /// Whether lines are due.
    pub open spec fn is_due(self, next: DriveSnapshotView, now: u128) -> bool {
        match self.last {
            None => true,
            Some(last) => {
                ||| last.changes_status(next)
                ||| last.movement(next) >= 10
                ||| last.movement(next) > 0 && has_passed(
                    self.last_logged_at,
                    now,
                    DRIVE_LOG_MAX_QUIET,
                )
            },
        }
    }

    /// The state after a look at it.
    pub open spec fn looked_at(self, next: DriveSnapshotView, now: u128) -> DriveLogView {
        if self.is_due(next, now) {
            DriveLogView { last: Some(next), last_logged_at: Some(now) }
        } else {
            self
        }
    }
}

fn same_strings(a: &Vec<String>, b: &Vec<String>) -> (r: bool)
    ensures
        r == (views(a@) == views(b@)),
{
    if a.len() != b.len() {
        assert(views(a@).len() != views(b@).len());
        return false;
    }
    for i in 0..a.len()
        invariant
            a@.len() == b@.len(),
            forall|k: int| 0 <= k < i ==> (#[trigger] a@[k])@ == b@[k]@,
    {
        if !same_str(a[i].as_str(), b[i].as_str()) {
            assert(views(a@)[i as int] != views(b@)[i as int]);
            return false;
        }
    }
    assert(views(a@) == views(b@));
    true
}

fn same_failures(a: &Vec<DriveFailureLogKey>, b: &Vec<DriveFailureLogKey>) -> (r: bool)
    ensures
        r == (key_views(a@) == key_views(b@)),
{
    if a.len() != b.len() {
        assert(key_views(a@).len() != key_views(b@).len());
        return false;
    }
    for i in 0..a.len()
        invariant
            a@.len() == b@.len(),
            forall|k: int|
                0 <= k < i ==> (#[trigger] a@[k]).device@ == b@[k].device@ && a@[k].error@
                    == b@[k].error@,
    {
        if !same_str(a[i].device.as_str(), b[i].device.as_str()) || !same_str(
            a[i].error.as_str(),
            b[i].error.as_str(),
        ) {
            assert(key_views(a@)[i as int] != key_views(b@)[i as int]);
            return false;
        }
    }
    assert(key_views(a@) == key_views(b@));
    true
}

fn same_level(a: Option<FanLevel>, b: Option<FanLevel>) -> (r: bool)
    ensures
        r == (a == b),
{
    match (a, b) {
        (Some(a), Some(b)) => a == b,
        (None, None) => true,
        _ => false,
    }
}

impl DriveLogState {
    /// Tests whether lines are due, and takes note of them.
    pub fn should_log(&mut self, snapshot: DriveLogSnapshot, now: u128) -> (r: bool)
        ensures
            r == old(self)@.is_due(snapshot@, now),
            final(self)@ == old(self)@.looked_at(snapshot@, now),
    {
        let due = match &self.last {
            None => true,
            Some(last) => {
                let status_changed = !same_strings(&last.standby_devices, &snapshot.standby_devices)
                    || !same_failures(&last.failures, &snapshot.failures);
                let level_changed = !same_level(last.level, snapshot.level);
                let duty_change: u8 = match (last.duty_percent, snapshot.duty_percent) {
                    (Some(a), Some(b)) => if a >= b {
                        a - b
                    } else {
                        b - a
                    },
                    _ => 0,
                };
                let quiet_period_elapsed = passed(self.last_logged_at, now, DRIVE_LOG_MAX_QUIET);
                status_changed || level_changed || duty_change >= DRIVE_LOG_IMMEDIATE_DUTY_CHANGE
                    || (duty_change > 0 && quiet_period_elapsed)
            },
        };
        if due {
            self.last = Some(snapshot);
            self.last_logged_at = Some(now);
        }
        due
    }
}

/// A change of status, or a large change of the duty, is logged at once.
pub proof fn status_is_logged_at_once(
    state: DriveLogView,
    last: DriveSnapshotView,
    next: DriveSnapshotView,
    now: u128,
)
    requires
        state.last == Some(last),
        last.changes_status(next) || last.movement(next) >= 10,
    ensures
        state.is_due(next, now),
        state.looked_at(next, now).last == Some(next),
{
}

/// Small changes of the duty are logged once ten minutes have passed since the
/// last lines, and not before.
pub proof fn small_changes_are_coalesced(
    state: DriveLogView,
    last: DriveSnapshotView,
    since: u128,
    next: DriveSnapshotView,
    now: u128,
)
    requires
        state.last == Some(last),
        state.last_logged_at == Some(since),
        !last.changes_status(next),
        last.movement(next) < 10,
    ensures
        state.is_due(next, now) <==> last.movement(next) > 0 && now - since >= DRIVE_LOG_MAX_QUIET,
{
}

/// An error as far as it matters to the log: how long a process was waited for
/// does not.
pub open spec fn logged_error(error: Seq<char>) -> Seq<char> {
    if starts_with(error, "smartctl timed out after "@) {
        "smartctl timeout"@
    } else {
        error
    }
}

/// Gives a failure as far as it matters to the log.
pub fn drive_failure_log_key(failure: &DriveTemperatureFailure) -> (r: DriveFailureLogKey)
    ensures
        r.device@ == failure.device@,
        r.error@ == logged_error(failure.error@),
{
    let chars = chars_of(failure.error.as_str());
    let error = if has_prefix(&chars, "smartctl timed out after ") {
        "smartctl timeout".to_owned()
    } else {
        failure.error.clone()
    };
    DriveFailureLogKey { device: failure.device.clone(), error }
}

/// Failures as far as they matter to the log.
pub open spec fn logged_failures(failures: Seq<(Seq<char>, Seq<char>)>) -> Seq<
    (Seq<char>, Seq<char>),
> {
    Seq::new(failures.len(), |i: int| (failures[i].0, logged_error(failures[i].1)))
}

/// What the log can say of a poll.
pub open spec fn drive_snapshot(
    poll: PollView,
    level: Option<FanLevel>,
    duty: Option<u8>,
) -> DriveSnapshotView {
    DriveSnapshotView {
        level,
        duty_percent: duty,
        standby: poll.standby,
        failures: logged_failures(poll.failures),
    }
}

/// Gives what the log can say of a poll.
pub fn snapshot_poll(poll: &DriveTemperaturePoll, level: Option<FanLevel>, duty: Option<u8>) -> (r:
    DriveLogSnapshot)
    ensures
        r@ == drive_snapshot(poll@, level, duty),
{
    let mut standby_devices: Vec<String> = Vec::new();
    for i in 0..poll.standby_devices.len()
        invariant
            views(standby_devices@) == views(poll.standby_devices@).take(i as int),
    {
        let ghost before = views(standby_devices@);
        standby_devices.push(poll.standby_devices[i].clone());
        assert(views(standby_devices@) == before.push(poll.standby_devices@[i as int]@));
    }
    let ghost wanted = logged_failures(poll@.failures);
    let mut failures: Vec<DriveFailureLogKey> = Vec::new();
    assert(key_views(failures@) == wanted.take(0));
    for i in 0..poll.failures.len()
        invariant
            wanted == logged_failures(poll@.failures),
            poll@.failures.len() == poll.failures@.len(),
            key_views(failures@) == wanted.take(i as int),
    {
        let ghost before = key_views(failures@);
        let key = drive_failure_log_key(&poll.failures[i]);
        assert(wanted[i as int] == (key.device@, key.error@));
        failures.push(key);
        assert(key_views(failures@) == before.push((key.device@, key.error@)));
    }
    assert(wanted.take(poll.failures@.len() as int) == wanted);
    assert(views(poll.standby_devices@).take(poll.standby_devices@.len() as int) == views(
        poll.standby_devices@,
    ));
    DriveLogSnapshot { level, duty_percent: duty, standby_devices, failures }
}

/// The name of a device without the directory of devices.
pub open spec fn short_name(device: Seq<char>) -> Seq<char> {
    if starts_with(device, "/dev/"@) {
        device.skip(5)
    } else {
        device
    }
}

/// Gives the name of a device without the directory of devices.
pub fn short_device_name(device: &str) -> (r: String)
    ensures
        r@ == short_name(device@),
{
    proof {
        reveal_strlit("/dev/");
    }
    let chars = chars_of(device);
    if has_prefix(&chars, "/dev/") {
        let rest = slice_subrange(chars.as_slice(), 5, chars.len());
        assert(rest@ == device@.skip(5));
        string_of(rest)
    } else {
        device.to_owned()
    }
}

/// The readings of a poll in one text, with commas between them.
pub open spec fn readings_text(readings: Seq<(Seq<char>, DriveTemperature)>) -> Seq<char>
    decreases readings.len(),
{
    if readings.len() == 0 {
        Seq::empty()
    } else {
        let own = short_name(readings.last().0) + ":"@ + decimal_int(
            readings.last().1.current_celsius as int,
        );
        if readings.len() == 1 {
            own
        } else {
            readings_text(readings.drop_last()) + ","@ + own
        }
    }
}

fn reading_text(reading: &DriveTemperatureReading) -> (r: String)
    ensures
        r@ == short_name(reading.device@) + ":"@ + decimal_int(
            reading.temperature.current_celsius as int,
        ),
{
    let mut out = short_device_name(reading.device.as_str());
    out.append(":");
    push_int(&mut out, reading.temperature.current_celsius as i64);
    out
}

fn join_readings(readings: &Vec<DriveTemperatureReading>) -> (r: String)
    ensures
        r@ == readings_text(reading_views(readings@)),
{
    let ghost all = reading_views(readings@);
    let mut out = String::new();
    assert(out@ == readings_text(all.take(0)));
    for i in 0..readings.len()
        invariant
            all == reading_views(readings@),
            out@ == readings_text(all.take(i as int)),
    {
        assert(all.take(i + 1).drop_last() == all.take(i as int));
        assert(all.take(i + 1).last() == (readings@[i as int].device@,
            readings@[i as int].temperature));
        let own = reading_text(&readings[i]);
        if i == 0 {
            out = own;
        } else {
            out.append(",");
            out.append(own.as_str());
        }
    }
    assert(all.take(all.len() as int) == all);
    out
}

/// The line on a drive that could not be read.
pub open spec fn failure_line(failure: (Seq<char>, Seq<char>)) -> Seq<char> {
    "fan-drives: device="@ + failure.0 + " read failed: "@ + failure.1
}

/// The line that sums up a poll.
pub open spec fn summary_line(poll: PollView, level: Option<FanLevel>, duty: Option<u8>) -> Seq<char> {
    match hottest_reading(poll.readings) {
        Some(hottest) => "fan-drives: tempC="@ + readings_text(poll.readings) + " hot="@ + short_name(
            hottest.0,
        ) + "/"@ + decimal_int(hottest.1.current_celsius as int) + "C/"@ + level_label(
            match level {
                Some(level) => level,
                None => FanLevel::Off,
            },
        ) + "/"@ + decimal(
            match duty {
                Some(duty) => duty as nat,
                None => 0,
            },
        ) + "% standby="@ + decimal(poll.standby.len()) + " errors="@ + decimal(
            poll.failures.len(),
        ),
        None => if poll.failures.len() == 0 {
            "fan-drives: all configured drives are in standby; using CPU temperature only"@
        } else {
            "fan-drives: no configured drive temperatures available; using CPU temperature only"@
        },
    }
}

/// The lines on a poll: one for each drive that could not be read, and one that
/// sums up.
pub open spec fn poll_lines(poll: PollView, level: Option<FanLevel>, duty: Option<u8>) -> Seq<
    Seq<char>,
> {
    Seq::new(poll.failures.len(), |i: int| failure_line(poll.failures[i])).push(
        summary_line(poll, level, duty),
    )
}

fn format_summary(poll: &DriveTemperaturePoll, level: Option<FanLevel>, duty: Option<u8>) -> (r: String)
    ensures
        r@ == summary_line(poll@, level, duty),
{
    match poll.hottest() {
        Some(hottest) => {
            let shown_level = match level {
                Some(level) => level,
                None => FanLevel::Off,
            };
            let shown_duty: u8 = match duty {
                Some(duty) => duty,
                None => 0,
            };
            let mut out = "fan-drives: tempC=".to_owned();
            out.append(join_readings(&poll.readings).as_str());
            out.append(" hot=");
            out.append(short_device_name(hottest.device.as_str()).as_str());
            out.append("/");
            push_int(&mut out, hottest.temperature.current_celsius as i64);
            out.append("C/");
            out.append(shown_level.label());
            out.append("/");
            push_decimal(&mut out, shown_duty as u64);
            out.append("% standby=");
            push_decimal(&mut out, poll.standby_devices.len() as u64);
            out.append(" errors=");
            push_decimal(&mut out, poll.failures.len() as u64);
            out
        },
        None => if poll.failures.len() == 0 {
            "fan-drives: all configured drives are in standby; using CPU temperature only".to_owned()
        } else {
            "fan-drives: no configured drive temperatures available; using CPU temperature only".to_owned()
        },
    }
}

/// Gives the lines on a poll.
pub fn format_poll(poll: &DriveTemperaturePoll, level: Option<FanLevel>, duty: Option<u8>) -> (r: Vec<
    String,
>)
    ensures
        views(r@) == poll_lines(poll@, level, duty),
{
    let ghost wanted = Seq::new(
        poll@.failures.len(),
        |i: int| failure_line(poll@.failures[i]),
    );
    let mut lines: Vec<String> = Vec::new();
    assert(views(lines@) == wanted.take(0));
    for i in 0..poll.failures.len()
        invariant
            poll@.failures.len() == poll.failures@.len(),
            wanted == Seq::new(
                poll@.failures.len(),
                |i: int| failure_line(poll@.failures[i]),
            ),
            views(lines@) == wanted.take(i as int),
    {
        let ghost before = views(lines@);
        let mut line = "fan-drives: device=".to_owned();
        line.append(poll.failures[i].device.as_str());
        line.append(" read failed: ");
        line.append(poll.failures[i].error.as_str());
        assert(poll@.failures[i as int] == (poll.failures@[i as int].device@,
            poll.failures@[i as int].error@));
        assert(line@ == wanted[i as int]);
        lines.push(line);
        assert(views(lines@) == before.push(line@));
    }
    assert(wanted.take(poll.failures@.len() as int) == wanted);
    let summary = format_summary(poll, level, duty);
    lines.push(summary);
    assert(views(lines@) == wanted.push(summary@));
    lines
}

/// A drive that falls asleep or wakes, one that fails, recovers or fails in
/// another way, and another level, are logged at once, and so is a duty that has
/// moved by ten percentage points or more.
pub proof fn drive_changes_are_logged_at_once(
    state: DriveLogView,
    next: DriveSnapshotView,
    now: u128,
)
    ensures
        state.last is None ==> state.is_due(next, now),
        state.last matches Some(last) ==> {
            &&& last.standby != next.standby ==> state.is_due(next, now)
            &&& last.failures != next.failures ==> state.is_due(next, now)
            &&& last.level != next.level ==> state.is_due(next, now)
            &&& (last.duty_percent matches Some(a) ==> (next.duty_percent matches Some(b) ==> (a - b
                >= 10 || b - a >= 10 ==> state.is_due(next, now))))
        },
        state.is_due(next, now) ==> state.looked_at(next, now) == (DriveLogView {
            last: Some(next),
            last_logged_at: Some(now),
        }),
        !state.is_due(next, now) ==> state.looked_at(next, now) == state,
{
}

/// Where no drive has changed its status and the level is the same, a duty that
/// has moved by less than ten percentage points is logged ten minutes after the
/// last lines and not before, and one that has not moved is not logged.
pub proof fn small_moves_wait_ten_minutes(
    state: DriveLogView,
    last: DriveSnapshotView,
    since: u128,
    next: DriveSnapshotView,
    now: u128,
    a: u8,
    b: u8,
)
    requires
        state.last == Some(last),
        state.last_logged_at == Some(since),
        last.standby == next.standby,
        last.failures == next.failures,
        last.level == next.level,
        last.duty_percent == Some(a),
        next.duty_percent == Some(b),
        -10 < a - b < 10,
    ensures
        state.is_due(next, now) <==> a != b && now - since >= 600_000_000_000,
{
}

/// How long a process was waited for does not make another failure of it, and all
/// other errors are told apart.
pub proof fn timeouts_are_alike(a: Seq<char>, b: Seq<char>, other: Seq<char>)
    ensures
        logged_error("smartctl timed out after "@ + a) == logged_error(
            "smartctl timed out after "@ + b,
        ),
        !starts_with(other, "smartctl timed out after "@) ==> logged_error(other) == other,
{
    let start = "smartctl timed out after "@;
    assert((start + a).take(start.len() as int) =~= start);
    assert((start + b).take(start.len() as int) =~= start);
}

/// What the log says of a poll is what the poll found: the same drives in standby
/// and the same drives that failed, in their order.
pub proof fn snapshot_is_of_the_poll(
    poll: PollView,
    level: Option<FanLevel>,
    duty: Option<u8>,
    i: int,
)
    ensures
        ({
            let s = drive_snapshot(poll, level, duty);
            &&& s.level == level && s.duty_percent == duty && s.standby == poll.standby
            &&& s.failures.len() == poll.failures.len()
            &&& 0 <= i < poll.failures.len() ==> s.failures[i].0 == poll.failures[i].0
                && s.failures[i].1 == logged_error(poll.failures[i].1)
        }),
{
}

/// A device is named without the directory of devices.
pub proof fn devices_are_named_briefly(name: Seq<char>)
    ensures
        short_name("/dev/"@ + name) == name,
        name.len() == 0 || name[0] != '/' ==> short_name(name) == name,
{
    reveal_strlit("/dev/");
    let path = "/dev/"@ + name;
    assert(path.take(5) =~= "/dev/"@);
    assert(path.skip(5) =~= name);
    if (name.len() == 0 || name[0] != '/') && starts_with(name, "/dev/"@) {
        assert(name.take(5)[0] == name[0]);
    }
}

/// Readings are listed in their order, each as the name of its device, a colon and
/// its temperature, with commas between them.
pub proof fn readings_are_listed_in_order(
    readings: Seq<(Seq<char>, DriveTemperature)>,
    more: (Seq<char>, DriveTemperature),
)
    ensures
        readings.len() > 0 ==> readings_text(readings.push(more)) == readings_text(readings) + ","@
            + short_name(more.0) + ":"@ + decimal_int(more.1.current_celsius as int),
        readings_text(seq![more]) == short_name(more.0) + ":"@ + decimal_int(
            more.1.current_celsius as int,
        ),
{
    let own = short_name(more.0) + ":"@ + decimal_int(more.1.current_celsius as int);
    assert(readings.push(more).drop_last() =~= readings);
    assert(readings_text(readings) + ","@ + own =~= readings_text(readings) + ","@ + short_name(
        more.0,
    ) + ":"@ + decimal_int(more.1.current_celsius as int));
}

/// Of every drive that failed a line of its own says so, with its name and its
/// error; one more line sums up. Where no temperature is known, that line says
/// whether all drives are in standby.
pub proof fn poll_is_summed_up(poll: PollView, level: Option<FanLevel>, duty: Option<u8>, i: int)
    ensures
        poll_lines(poll, level, duty).len() == poll.failures.len() + 1,
        0 <= i < poll.failures.len() ==> poll_lines(poll, level, duty)[i] == "fan-drives: device="@
            + poll.failures[i].0 + " read failed: "@ + poll.failures[i].1,
        poll.readings.len() == 0 && poll.failures.len() == 0 ==> poll_lines(poll, level, duty).last()
            == "fan-drives: all configured drives are in standby; using CPU temperature only"@,
        poll.readings.len() == 0 && poll.failures.len() > 0 ==> poll_lines(poll, level, duty).last()
            == "fan-drives: no configured drive temperatures available; using CPU temperature only"@,
        poll.readings.len() > 0 ==> (hottest_reading(poll.readings) matches Some(hot) && exists|
            rest: Seq<char>,
        | poll_lines(poll, level, duty).last() == "fan-drives: tempC="@ + readings_text(
            poll.readings,
        ) + " hot="@ + short_name(hot.0) + "/"@ + decimal_int(hot.1.current_celsius as int)
            + #[trigger] ("C/"@ + rest)),
        poll.readings.len() > 0 ==> (level matches Some(asked) ==> (duty matches Some(share)
            ==> exists|start: Seq<char>, end: Seq<char>| poll_lines(poll, level, duty).last()
            == #[trigger] (start + "C/"@) + level_label(asked) + "/"@ + decimal(share as nat)
            + #[trigger] ("% standby="@ + end))),
        poll.readings.len() > 0 ==> exists|start: Seq<char>| poll_lines(poll, level, duty).last()
            == #[trigger] (start + "% standby="@) + decimal(poll.standby.len()) + " errors="@
            + decimal(poll.failures.len()),
{
    crate::drives::hottest_reading_is_hottest(poll.readings);
    if poll.readings.len() > 0 {
        let hot = hottest_reading(poll.readings)->0;
        let shown_level = level_label(
            match level {
                Some(level) => level,
                None => FanLevel::Off,
            },
        );
        let shown_duty = decimal(
            match duty {
                Some(duty) => duty as nat,
                None => 0,
            },
        );
        let head = "fan-drives: tempC="@ + readings_text(poll.readings) + " hot="@ + short_name(
            hot.0,
        ) + "/"@ + decimal_int(hot.1.current_celsius as int);
        let rest = shown_level + "/"@ + shown_duty + "% standby="@ + decimal(poll.standby.len())
            + " errors="@ + decimal(poll.failures.len());
        assert(poll_lines(poll, level, duty).last() =~= head + ("C/"@ + rest));
        let end = decimal(poll.standby.len()) + " errors="@ + decimal(poll.failures.len());
        assert(poll_lines(poll, level, duty).last() =~= (head + "C/"@) + shown_level + "/"@
            + shown_duty + ("% standby="@ + end));
        let start = head + "C/"@ + shown_level + "/"@ + shown_duty;
        assert(poll_lines(poll, level, duty).last() =~= (start + "% standby="@) + decimal(
            poll.standby.len(),
        ) + " errors="@ + decimal(poll.failures.len()));
    }
}


} // verus!
