//! Polling drives for their temperatures, and what is known of drives that do
//! not answer.
//!
//! Points in time and spans of time are whole numbers of nanoseconds; points in
//! time count from some moment before the first of them.

use vstd::prelude::*;

use crate::bytes::lossy;
use crate::smart::{
    classified, error_text, read_smart_temperature, DriveTemperature, SmartctlError,
    SmartctlOutcome, SmartctlOutput,
};
use crate::split::views;

verus! {

/// The time that all drives of one poll have together.
pub const SMARTCTL_BATCH_TIMEOUT: u128 = 5_000_000_000;

/// The time between two looks at a running process.
pub const SMARTCTL_WAIT_INTERVAL: u128 = 10_000_000;

/// The temperature of a drive.
#[derive(Debug, Clone, PartialEq, Eq)]
pub struct DriveTemperatureReading {
    pub device: String,
    pub temperature: DriveTemperature,
}

/// A drive that could not be read, and why.
#[derive(Debug, Clone, PartialEq, Eq)]
pub struct DriveTemperatureFailure {
    pub device: String,
    pub error: String,
}

/// What one round over all drives found.
#[derive(Debug, Clone, PartialEq, Eq)]
pub struct DriveTemperaturePoll {
    pub readings: Vec<DriveTemperatureReading>,
    pub standby_devices: Vec<String>,
    pub failures: Vec<DriveTemperatureFailure>,
}

/// A poll as mathematical data.
#[verifier::ext_equal]
pub struct PollView {
    pub readings: Seq<(Seq<char>, DriveTemperature)>,
    pub standby: Seq<Seq<char>>,
    pub failures: Seq<(Seq<char>, Seq<char>)>,
}

/// The devices and temperatures of readings.
pub open spec fn reading_views(readings: Seq<DriveTemperatureReading>) -> Seq<
    (Seq<char>, DriveTemperature),
> {
    Seq::new(readings.len(), |i: int| (readings[i].device@, readings[i].temperature))
}

/// The devices and errors of failures.
pub open spec fn failure_views(failures: Seq<DriveTemperatureFailure>) -> Seq<
    (Seq<char>, Seq<char>),
> {
    Seq::new(failures.len(), |i: int| (failures[i].device@, failures[i].error@))
}

impl View for DriveTemperaturePoll {
    type V = PollView;

    open spec fn view(&self) -> PollView {
        PollView {
            readings: reading_views(self.readings@),
            standby: views(self.standby_devices@),
            failures: failure_views(self.failures@),
        }
    }
}

/// A poll that has found nothing yet.
pub open spec fn empty_poll() -> PollView {
    PollView { readings: Seq::empty(), standby: Seq::empty(), failures: Seq::empty() }
}

/// What a reading of one drive came to, with the text of an error.
pub open spec fn outcome_text(outcome: Result<SmartctlOutcome, String>) -> Result<
    SmartctlOutcome,
    Seq<char>,
> {
    match outcome {
        Ok(found) => Ok(found),
        Err(error) => Err(error@),
    }
}

/// A poll with one more drive in it.
pub open spec fn recorded(
    poll: PollView,
    device: Seq<char>,
    outcome: Result<SmartctlOutcome, Seq<char>>,
) -> PollView {
    match outcome {
        Ok(SmartctlOutcome::Temperature(t)) => PollView {
            readings: poll.readings.push((device, t)),
            ..poll
        },
        Ok(SmartctlOutcome::Standby) => PollView { standby: poll.standby.push(device), ..poll },
        Err(error) => PollView { failures: poll.failures.push((device, error)), ..poll },
    }
}

/// The poll of some drives with the given outcomes.
pub open spec fn collected(
    devices: Seq<Seq<char>>,
    outcomes: Seq<Result<SmartctlOutcome, Seq<char>>>,
) -> PollView
    decreases devices.len(),
{
    if devices.len() == 0 {
        empty_poll()
    } else {
        recorded(
            collected(devices.drop_last(), outcomes.drop_last()),
            devices.last(),
            outcomes.last(),
        )
    }
}

/// Whether the reading at `i` is the hottest: none is hotter, and of equally
/// hot ones it is the last.
pub open spec fn is_hottest(readings: Seq<DriveTemperatureReading>, i: int) -> bool {
    &&& 0 <= i < readings.len()
    &&& forall|k: int|
        0 <= k < readings.len() ==> (#[trigger] readings[k]).temperature.current_celsius
            <= readings[i].temperature.current_celsius
    &&& forall|k: int|
        i < k < readings.len() ==> (#[trigger] readings[k]).temperature.current_celsius
            < readings[i].temperature.current_celsius
}

/// The hottest of some readings; of equally hot ones the last.
pub open spec fn hottest_reading(readings: Seq<(Seq<char>, DriveTemperature)>) -> Option<
    (Seq<char>, DriveTemperature),
>
    decreases readings.len(),
{
    if readings.len() == 0 {
        None
    } else {
        match hottest_reading(readings.drop_last()) {
            Some(hottest) => if hottest.1.current_celsius > readings.last().1.current_celsius {
                Some(hottest)
            } else {
                Some(readings.last())
            },
            None => Some(readings.last()),
        }
    }
}

proof fn lemma_hottest(readings: Seq<DriveTemperatureReading>, i: int)
    requires
        is_hottest(readings, i),
    ensures
        hottest_reading(reading_views(readings)) == Some(
            (readings[i].device@, readings[i].temperature),
        ),
    decreases readings.len(),
{
    let all = reading_views(readings);
    let rest = readings.drop_last();
    assert(all.drop_last() == reading_views(rest));
    assert(all.last() == (readings.last().device@, readings.last().temperature));
    if i < readings.len() - 1 {
        assert(forall|k: int| 0 <= k < rest.len() ==> rest[k] == readings[k]);
        assert(is_hottest(rest, i));
        lemma_hottest(rest, i);
        assert(readings[readings.len() - 1] == readings.last());
    } else if rest.len() > 0 {
        lemma_hottest_among(rest);
    }
}

/// The hottest reading is one of the readings.
proof fn lemma_hottest_among(readings: Seq<DriveTemperatureReading>)
    requires
        readings.len() > 0,
    ensures
        hottest_reading(reading_views(readings)) matches Some(hottest) && exists|k: int|
            0 <= k < readings.len() && hottest == ((#[trigger] readings[k]).device@,
                readings[k].temperature),
    decreases readings.len(),
{
    let all = reading_views(readings);
    let rest = readings.drop_last();
    assert(all.drop_last() == reading_views(rest));
    assert(all.last() == (readings[readings.len() - 1].device@,
        readings[readings.len() - 1].temperature));
    if rest.len() > 0 {
        lemma_hottest_among(rest);
        let hottest = hottest_reading(reading_views(rest))->0;
        let k = choose|k: int|
            0 <= k < rest.len() && hottest == ((#[trigger] rest[k]).device@, rest[k].temperature);
        assert(readings[k] == rest[k]);
    }
}

/// Looks for the hottest of some readings.
pub(crate) fn hottest_of<'a>(readings: &'a Vec<DriveTemperatureReading>) -> (r: Option<
    &'a DriveTemperatureReading,
>)
    ensures
        match r {
            Some(reading) => exists|i: int|
                #[trigger] is_hottest(readings@, i) && *reading == readings@[i],
            None => readings@.len() == 0,
        },
        match r {
            Some(reading) => hottest_reading(reading_views(readings@)) == Some(
                (reading.device@, reading.temperature),
            ),
            None => hottest_reading(reading_views(readings@)) is None,
        },
{
    if readings.len() == 0 {
        return None;
    }
    let mut best: usize = 0;
    let mut i: usize = 1;
    while i < readings.len()
        invariant
            best < i <= readings@.len(),
            forall|k: int|
                0 <= k < i ==> (#[trigger] readings@[k]).temperature.current_celsius
                    <= readings@[best as int].temperature.current_celsius,
            forall|k: int|
                best < k < i ==> (#[trigger] readings@[k]).temperature.current_celsius
                    < readings@[best as int].temperature.current_celsius,
        decreases readings@.len() - i,
    {
        if readings[i].temperature.current_celsius >= readings[best].temperature.current_celsius {
            best = i;
        }
        i = i + 1;
    }
    assert(is_hottest(readings@, best as int));
    proof {
        lemma_hottest(readings@, best as int);
    }
    Some(&readings[best])
}

impl Default for DriveTemperaturePoll {
    fn default() -> (r: Self)
        ensures
            r@ == empty_poll(),
    {
        let r = DriveTemperaturePoll {
            readings: Vec::new(),
            standby_devices: Vec::new(),
            failures: Vec::new(),
        };
        assert(r@ == empty_poll());
        r
    }
}

impl DriveTemperaturePoll {
    /// The hottest drive that was read; of equally hot ones the last.
    pub fn hottest(&self) -> (r: Option<&DriveTemperatureReading>)
        ensures
            match r {
                Some(reading) => exists|i: int|
                    #[trigger] is_hottest(self.readings@, i) && *reading == self.readings@[i],
                None => self.readings@.len() == 0,
            },
            match r {
                Some(reading) => hottest_reading(self@.readings) == Some(
                    (reading.device@, reading.temperature),
                ),
                None => hottest_reading(self@.readings) is None,
            },
    {
        hottest_of(&self.readings)
    }

    /// Adds what the reading of one drive came to.
    pub fn record(&mut self, device: &str, outcome: Result<SmartctlOutcome, String>)
        ensures
            final(self)@ == recorded(old(self)@, device@, outcome_text(outcome)),
    {
        match outcome {
            Ok(SmartctlOutcome::Temperature(temperature)) => {
                self.readings.push(
                    DriveTemperatureReading { device: device.to_owned(), temperature },
                );
            },
            Ok(SmartctlOutcome::Standby) => {
                self.standby_devices.push(device.to_owned());
            },
            Err(error) => {
                self.failures.push(DriveTemperatureFailure { device: device.to_owned(), error });
            },
        }
        assert(self@ == recorded(old(self)@, device@, outcome_text(outcome)));
    }
}

/// Whether `read` may answer `outcome` for `device`.
pub open spec fn may_answer<F: Fn(&str) -> Result<SmartctlOutcome, String>>(
    read: F,
    device: Seq<char>,
    outcome: Result<SmartctlOutcome, String>,
) -> bool {
    exists|d: &str| d@ == device && #[trigger] call_ensures(read, (d,), outcome)
}

/// The texts of outcomes.
pub open spec fn outcome_texts(outcomes: Seq<Result<SmartctlOutcome, String>>) -> Seq<
    Result<SmartctlOutcome, Seq<char>>,
> {
    Seq::new(outcomes.len(), |i: int| outcome_text(outcomes[i]))
}

/// Reads each device once, in order, and collects what came back.
pub fn poll_drive_temperatures_with<F: Fn(&str) -> Result<SmartctlOutcome, String>>(
    devices: &[String],
    read: F,
) -> (r: DriveTemperaturePoll)
    requires
        forall|d: &str| call_requires(read, (d,)),
    ensures
        exists|outcomes: Seq<Result<SmartctlOutcome, String>>|
            {
                &&& outcomes.len() == devices@.len()
                &&& forall|i: int|
                    0 <= i < devices@.len() ==> may_answer(
                        read,
                        devices@[i]@,
                        #[trigger] outcomes[i],
                    )
                &&& r@ == #[trigger] collected(views(devices@), outcome_texts(outcomes))
            },
{
    let mut poll = DriveTemperaturePoll::default();
    let ghost mut outcomes: Seq<Result<SmartctlOutcome, String>> = Seq::empty();
    let ghost all = views(devices@);
    let mut i: usize = 0;
    while i < devices.len()
        invariant
            i <= devices@.len(),
            all == views(devices@),
            forall|d: &str| call_requires(read, (d,)),
            outcomes.len() == i,
            forall|k: int|
                0 <= k < i ==> may_answer(read, devices@[k]@, #[trigger] outcomes[k]),
            poll@ == collected(all.take(i as int), outcome_texts(outcomes)),
        decreases devices@.len() - i,
    {
        let device: &str = devices[i].as_str();
        let outcome = read(device);
        let ghost before = outcomes;
        proof {
            assert(may_answer(read, devices@[i as int]@, outcome));
            outcomes = outcomes.push(outcome);
            assert(outcome_texts(outcomes).drop_last() == outcome_texts(before));
            assert(all.take(i + 1).drop_last() == all.take(i as int));
            assert(forall|k: int| 0 <= k < i ==> outcomes[k] == before[k]);
        }
        poll.record(device, outcome);
        i = i + 1;
    }
    assert(all.take(i as int) == all);
    poll
}

/// What happened while one drive was polled. The host is what the clock and the
/// process act on: it is handed to each call, which gives it back changed.
pub struct Attempt<H> {
    /// The host before the clock was read for this drive.
    pub before: H,
    /// The time that the clock gave.
    pub now: u128,
    /// The host after that.
    pub looked: H,
    /// The outcome of the reading.
    pub outcome: Result<SmartctlOutcome, SmartctlError>,
    /// The host after the reading.
    pub after: H,
}

/// Whether a reading of `device` may go as `attempt` says, for a poll with the
/// given deadline. The clock is read first. Before the deadline the process is
/// then run with the time that is left; at the deadline and after it no process
/// is run.
pub open spec fn may_go<
    H,
    C: Fn(H) -> (H, u128),
    R: Fn(H, &str, u128) -> (H, Result<SmartctlOutput, SmartctlError>),
>(clock: C, run: R, deadline: int, device: Seq<char>, attempt: Attempt<H>) -> bool {
    &&& call_ensures(clock, (attempt.before,), (attempt.looked, attempt.now))
    &&& if attempt.now >= deadline {
        &&& attempt.outcome == Err::<SmartctlOutcome, SmartctlError>(SmartctlError::BatchTimeout)
        &&& attempt.after == attempt.looked
    } else {
        exists|d: &str, output: Result<SmartctlOutput, SmartctlError>|
            {
                &&& d@ == device
                &&& #[trigger] call_ensures(
                    run,
                    (attempt.looked, d, (deadline - attempt.now) as u128),
                    (attempt.after, output),
                )
                &&& match output {
                    Ok(left) => classified(
                        lossy(left.stdout@),
                        lossy(left.stderr@),
                        left.status,
                        attempt.outcome,
                    ),
                    Err(error) => attempt.outcome == Err::<SmartctlOutcome, SmartctlError>(error),
                }
            }
    }
}

/// The outcomes of attempts, with the texts of errors.
pub open spec fn attempt_texts<H>(attempts: Seq<Attempt<H>>) -> Seq<
    Result<SmartctlOutcome, Seq<char>>,
> {
    Seq::new(
        attempts.len(),
        |i: int|
            match attempts[i].outcome {
                Ok(found) => Ok(found),
                Err(error) => Err(error_text(error)),
            },
    )
}

/// The host after attempts, of which the first began with the host `first`.
pub open spec fn host_after<H>(first: H, attempts: Seq<Attempt<H>>) -> H {
    if attempts.len() == 0 {
        first
    } else {
        attempts.last().after
    }
}

/// Whether a poll that the clock said to start at `start`, with the host
/// `started` after that, may find what `poll` holds and leave the host `end`.
/// The drives are read one after the other, each attempt with the host that the
/// one before it left.
pub open spec fn may_find<
    H,
    C: Fn(H) -> (H, u128),
    R: Fn(H, &str, u128) -> (H, Result<SmartctlOutput, SmartctlError>),
>(
    clock: C,
    run: R,
    host: H,
    devices: Seq<Seq<char>>,
    start: u128,
    started: H,
    attempts: Seq<Attempt<H>>,
    end: H,
    poll: PollView,
) -> bool {
    &&& call_ensures(clock, (host,), (started, start))
    &&& attempts.len() == devices.len()
    &&& forall|i: int|
        0 <= i < devices.len() ==> (#[trigger] attempts[i]).before == host_after(
            started,
            attempts.take(i),
        ) && may_go(clock, run, start + SMARTCTL_BATCH_TIMEOUT, devices[i], attempts[i])
    &&& end == host_after(started, attempts)
    &&& poll == collected(devices, attempt_texts(attempts))
}

/// The time that is left of a poll, which is an error where there is none.
pub fn remaining_time(deadline: u128, now: u128) -> (r: Result<u128, SmartctlError>)
    ensures
        r == if now >= deadline {
            Err::<u128, SmartctlError>(SmartctlError::BatchTimeout)
        } else {
            Ok::<u128, SmartctlError>((deadline - now) as u128)
        },
{
    if now >= deadline {
        Err(SmartctlError::BatchTimeout)
    } else {
        Ok(deadline - now)
    }
}

/// Polls each device once, in order, within the time for all of them. The clock
/// is read once at the start and once before each device.
pub fn poll_drive_temperatures<
    H,
    C: Fn(H) -> (H, u128),
    R: Fn(H, &str, u128) -> (H, Result<SmartctlOutput, SmartctlError>),
>(devices: &[String], host: H, clock: C, run: R) -> (r: (H, DriveTemperaturePoll))
    requires
        forall|h: H| call_requires(clock, (h,)),
        forall|h: H, k: H, t: u128|
            call_ensures(clock, (h,), (k, t)) ==> t <= u128::MAX - SMARTCTL_BATCH_TIMEOUT,
        forall|h: H, d: &str, t: u128| call_requires(run, (h, d, t)),
    ensures
        exists|start: u128, started: H, attempts: Seq<Attempt<H>>| #[trigger]
            may_find(clock, run, host, views(devices@), start, started, attempts, r.0, r.1@),
{
    let (started, start) = clock(host);
    let deadline: u128 = start + SMARTCTL_BATCH_TIMEOUT;
    let ghost first = started;
    let mut current: H = started;
    let mut poll = DriveTemperaturePoll::default();
    let ghost mut attempts: Seq<Attempt<H>> = Seq::empty();
    let ghost all = views(devices@);
    let mut i: usize = 0;
    while i < devices.len()
        invariant
            i <= devices@.len(),
            all == views(devices@),
            forall|h: H| call_requires(clock, (h,)),
            forall|h: H, d: &str, t: u128| call_requires(run, (h, d, t)),
            deadline == start + SMARTCTL_BATCH_TIMEOUT,
            attempts.len() == i,
            current == host_after(first, attempts),
            forall|k: int|
                0 <= k < i ==> (#[trigger] attempts[k]).before == host_after(
                    first,
                    attempts.take(k),
                ) && may_go(clock, run, start + SMARTCTL_BATCH_TIMEOUT, all[k], attempts[k]),
            poll@ == collected(all.take(i as int), attempt_texts(attempts)),
        decreases devices@.len() - i,
    {
        let device: &str = devices[i].as_str();
        let ghost before = current;
        let (looked, now) = clock(current);
        let ghost after_look = looked;
        let (after, outcome) = match remaining_time(deadline, now) {
            Ok(remaining) => {
                let (after, output) = run(looked, device, remaining);
                (after, read_smart_temperature(output))
            },
            Err(error) => (looked, Err(error)),
        };
        let ghost attempt = Attempt { before, now, looked: after_look, outcome, after };
        let ghost earlier = attempts;
        proof {
            assert(all[i as int] == device@);
            assert(may_go(clock, run, start + SMARTCTL_BATCH_TIMEOUT, all[i as int], attempt));
            attempts = attempts.push(attempt);
            assert(attempt_texts(attempts).drop_last() == attempt_texts(earlier));
            assert(all.take(i + 1).drop_last() == all.take(i as int));
            assert(attempts.take(i as int) == earlier);
            assert forall|k: int| 0 <= k < i implies attempts[k] == earlier[k] && attempts.take(k)
                == earlier.take(k) by {}
        }
        current = after;
        let text: Result<SmartctlOutcome, String> = match outcome {
            Ok(found) => Ok(found),
            Err(error) => Err(error.message()),
        };
        poll.record(device, text);
        i = i + 1;
    }
    assert(all.take(i as int) == all);
    let found = (current, poll);
    assert(may_find(clock, run, host, all, start, first, attempts, found.0, found.1@));
    found
}

/// The hottest of some readings is one of them, none is hotter, and of equally hot
/// ones it is the last; there is one wherever there are readings.
pub proof fn hottest_reading_is_hottest(readings: Seq<(Seq<char>, DriveTemperature)>)
    ensures
        match hottest_reading(readings) {
            Some(hottest) => exists|i: int|
                #![trigger readings[i]]
                0 <= i < readings.len() && readings[i] == hottest && (forall|k: int|
                    0 <= k < readings.len() ==> (#[trigger] readings[k]).1.current_celsius
                        <= hottest.1.current_celsius) && (forall|k: int|
                    i < k < readings.len() ==> (#[trigger] readings[k]).1.current_celsius
                        < hottest.1.current_celsius),
            None => readings.len() == 0,
        },
    decreases readings.len(),
{
    if readings.len() > 0 {
        let before = readings.drop_last();
        let last = readings.last();
        hottest_reading_is_hottest(before);
        assert(forall|k: int| 0 <= k < before.len() ==> before[k] == readings[k]);
        assert(readings[readings.len() - 1] == last);
        if let Some(hottest) = hottest_reading(before) {
            let i = choose|i: int|
                #![trigger before[i]]
                0 <= i < before.len() && before[i] == hottest && (forall|k: int|
                    0 <= k < before.len() ==> (#[trigger] before[k]).1.current_celsius
                        <= hottest.1.current_celsius) && (forall|k: int|
                    i < k < before.len() ==> (#[trigger] before[k]).1.current_celsius
                        < hottest.1.current_celsius);
            if hottest.1.current_celsius > last.1.current_celsius {
                assert(readings[i] == hottest);
                assert forall|k: int| 0 <= k < readings.len() implies (
                #[trigger] readings[k]).1.current_celsius <= hottest.1.current_celsius by {
                    if k < before.len() {
                        assert(before[k] == readings[k]);
                    }
                }
                assert forall|k: int| i < k < readings.len() implies (
                #[trigger] readings[k]).1.current_celsius < hottest.1.current_celsius by {
                    if k < before.len() {
                        assert(before[k] == readings[k]);
                    }
                }
            } else {
                assert forall|k: int| 0 <= k < readings.len() implies (
                #[trigger] readings[k]).1.current_celsius <= last.1.current_celsius by {
                    if k < before.len() {
                        assert(before[k] == readings[k]);
                    }
                }
            }
        } else {
            assert(before.len() == 0);
        }
    }
}

/// Every drive of a poll is counted once: where its outcome is a temperature it is
/// among the readings with that, in standby it is among those, and otherwise it is
/// among the failures with its error. The drives keep their order.
pub proof fn every_drive_is_counted_once(
    devices: Seq<Seq<char>>,
    outcomes: Seq<Result<SmartctlOutcome, Seq<char>>>,
    i: int,
)
    requires
        devices.len() == outcomes.len(),
        0 <= i < devices.len(),
    ensures
        ({
            let poll = collected(devices, outcomes);
            let before = collected(devices.take(i), outcomes.take(i));
            &&& poll.readings.len() + poll.standby.len() + poll.failures.len() == devices.len()
            &&& match outcomes[i] {
                Ok(SmartctlOutcome::Temperature(t)) => before.readings.len() < poll.readings.len()
                    && poll.readings[before.readings.len() as int] == (devices[i], t),
                Ok(SmartctlOutcome::Standby) => before.standby.len() < poll.standby.len()
                    && poll.standby[before.standby.len() as int] == devices[i],
                Err(error) => before.failures.len() < poll.failures.len()
                    && poll.failures[before.failures.len() as int] == (devices[i], error),
            }
            &&& before.readings.is_prefix_of(poll.readings)
            &&& before.standby.is_prefix_of(poll.standby)
            &&& before.failures.is_prefix_of(poll.failures)
        }),
    decreases devices.len(),
{
    let d = devices.drop_last();
    let o = outcomes.drop_last();
    lemma_count(devices, outcomes);
    if i < d.len() {
        every_drive_is_counted_once(d, o, i);
        assert(d.take(i) =~= devices.take(i));
        assert(o.take(i) =~= outcomes.take(i));
        let shorter = collected(d, o);
        let poll = collected(devices, outcomes);
        assert(shorter.readings.is_prefix_of(poll.readings));
        assert(shorter.standby.is_prefix_of(poll.standby));
        assert(shorter.failures.is_prefix_of(poll.failures));
    } else {
        assert(d =~= devices.take(i));
        assert(o =~= outcomes.take(i));
    }
}

proof fn lemma_count(
    devices: Seq<Seq<char>>,
    outcomes: Seq<Result<SmartctlOutcome, Seq<char>>>,
)
    requires
        devices.len() == outcomes.len(),
    ensures
        ({
            let poll = collected(devices, outcomes);
            poll.readings.len() + poll.standby.len() + poll.failures.len() == devices.len()
        }),
    decreases devices.len(),
{
    if devices.len() > 0 {
        lemma_count(devices.drop_last(), outcomes.drop_last());
    }
}

/// All drives of a poll share five seconds: a drive whose turn comes later is not
/// read and fails as such, and every other is given the rest of the time.
pub proof fn drives_share_five_seconds<
    H,
    C: Fn(H) -> (H, u128),
    R: Fn(H, &str, u128) -> (H, Result<SmartctlOutput, SmartctlError>),
>(
    clock: C,
    run: R,
    host: H,
    devices: Seq<Seq<char>>,
    start: u128,
    started: H,
    attempts: Seq<Attempt<H>>,
    end: H,
    poll: PollView,
    i: int,
)
    requires
        may_find(clock, run, host, devices, start, started, attempts, end, poll),
        0 <= i < devices.len(),
    ensures
        attempts[i].now - start >= 5_000_000_000 ==> attempts[i].outcome == Err::<
            SmartctlOutcome,
            SmartctlError,
        >(SmartctlError::BatchTimeout),
        attempts[i].now - start < 5_000_000_000 ==> exists|
            d: &str,
            output: Result<SmartctlOutput, SmartctlError>,
        |
            d@ == devices[i] && #[trigger] call_ensures(
                run,
                (attempts[i].looked, d, (start + 5_000_000_000 - attempts[i].now) as u128),
                (attempts[i].after, output),
            ),
        poll.readings.len() + poll.standby.len() + poll.failures.len() == devices.len(),
{
    assert(may_go(clock, run, start + SMARTCTL_BATCH_TIMEOUT, devices[i], attempts[i]));
    lemma_count(devices, attempt_texts(attempts));
}

} // verus!
