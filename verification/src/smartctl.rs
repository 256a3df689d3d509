//! How `smartctl` is run, and how long it is waited for.
//!
//! Points in time and spans of time are whole numbers of nanoseconds.

use vstd::prelude::*;

use crate::drives::SMARTCTL_WAIT_INTERVAL;
use crate::smart::SmartctlError;
use crate::split::views;

verus! {

/// The arguments for one drive: its attributes, as JSON, and nothing where the
/// drive is in standby, so that it is not woken.
pub open spec fn arguments(device: Seq<char>) -> Seq<Seq<char>> {
    seq!["-A"@, "-j"@, "-n"@, "standby,3,5"@, "-d"@, "ata"@, device]
}

/// Gives the arguments for one drive.
pub fn smartctl_arguments(device: &str) -> (r: Vec<String>)
    ensures
        views(r@) == arguments(device@),
{
    let mut out: Vec<String> = Vec::new();
    out.push("-A".to_owned());
    out.push("-j".to_owned());
    out.push("-n".to_owned());
    out.push("standby,3,5".to_owned());
    out.push("-d".to_owned());
    out.push("ata".to_owned());
    out.push(device.to_owned());
    assert(views(out@) == arguments(device@));
    out
}

/// What to do after a look at a running process.
#[derive(Debug, Clone, PartialEq, Eq)]
pub enum WaitStep {
    /// It has ended: take its output.
    Collect,
    /// It has taken too long: end it, and give the error.
    Kill { error: SmartctlError },
    /// Look again after a pause.
    Pause { pause: u128 },
}

/// The milliseconds in a span of time, at most what 64 bits hold.
pub open spec fn milliseconds_in(span: u128) -> u64 {
    if span / 1_000_000 > u64::MAX {
        u64::MAX
    } else {
        (span / 1_000_000) as u64
    }
}

/// What to do after a look at a process that was given some time: what has
/// ended is taken even when it is late.
pub open spec fn wait_step(exited: bool, now: u128, started: u128, timeout: u128) -> WaitStep {
    if exited {
        WaitStep::Collect
    } else if now - started >= timeout {
        WaitStep::Kill {
            error: SmartctlError::Timeout { milliseconds: milliseconds_in(timeout) },
        }
    } else {
        WaitStep::Pause { pause: SMARTCTL_WAIT_INTERVAL }
    }
}

/// Decides what to do after a look at a process.
pub fn after_look(exited: bool, now: u128, started: u128, timeout: u128) -> (r: WaitStep)
    requires
        started + timeout <= u128::MAX,
    ensures
        r == wait_step(exited, now, started, timeout),
{
    let deadline: u128 = started + timeout;
    if exited {
        WaitStep::Collect
    } else if now >= deadline {
        let milliseconds: u128 = timeout / 1_000_000;
        let capped: u64 = if milliseconds > u64::MAX as u128 {
            u64::MAX
        } else {
            milliseconds as u64
        };
        WaitStep::Kill { error: SmartctlError::Timeout { milliseconds: capped } }
    } else {
        WaitStep::Pause { pause: SMARTCTL_WAIT_INTERVAL }
    }
}

/// A process is ended when its time is over and not before, and is never ended
/// when it has ended by itself.
pub proof fn process_has_its_time(exited: bool, now: u128, started: u128, timeout: u128)
    ensures
        wait_step(exited, now, started, timeout) is Kill <==> !exited && now - started >= timeout,
        exited ==> wait_step(exited, now, started, timeout) is Collect,
{
}

/// A process is looked at every hundredth of a second while its time lasts, and
/// the error of one that took too long gives its time in whole milliseconds.
pub proof fn waiting_is_in_small_steps(now: u128, started: u128, timeout: u128)
    ensures
        now - started < timeout ==> wait_step(false, now, started, timeout) == (WaitStep::Pause {
            pause: 10_000_000,
        }),
        now - started >= timeout ==> (wait_step(false, now, started, timeout) matches WaitStep::Kill {
            error: SmartctlError::Timeout { milliseconds },
        } && (milliseconds < u64::MAX ==> milliseconds * 1_000_000 <= timeout < (milliseconds + 1)
            * 1_000_000)),
{
}

/// A drive is asked for its attributes as a document, by its own name, and not
/// where it is in standby.
pub proof fn drives_are_not_woken(device: Seq<char>)
    ensures
        arguments(device).last() == device,
        exists|i: int|
            #![trigger arguments(device)[i]]
            0 <= i < arguments(device).len() - 2 && arguments(device)[i] == "-n"@ && arguments(
                device,
            )[i + 1] == "standby,3,5"@,
        arguments(device).contains("-A"@) && arguments(device).contains("-j"@),
        arguments(device).len() == 7,
        arguments(device)[4] == "-d"@ && arguments(device)[5] == "ata"@,
{
    assert(arguments(device)[2] == "-n"@);
    assert(arguments(device)[0] == "-A"@);
    assert(arguments(device)[1] == "-j"@);
}


} // verus!
