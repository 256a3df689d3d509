//! When a temperature of the processor that could not be read is logged, and
//! what stands for it.

use vstd::prelude::*;
use vstd::string::*;

use crate::binary64::Binary64;
use crate::text::{maybe_text, same_str};

verus! {

/// The last error, while it lasts.
#[derive(Debug, Clone)]
pub struct CpuTempLogState {
    pub last_error: Option<String>,
}

impl Default for CpuTempLogState {
    fn default() -> (r: Self)
        ensures
            r.last_error is None,
    {
        CpuTempLogState { last_error: None }
    }
}

/// The temperature to act on: what is not a number stands for one that could
/// not be read.
pub open spec fn acted_on(result: Result<Binary64, Seq<char>>) -> Binary64 {
    match result {
        Ok(celsius) => celsius,
        Err(_) => Binary64 { bits: 0x7ff8_0000_0000_0000 },
    }
}

/// The error after a reading.
pub open spec fn error_after(result: Result<Binary64, Seq<char>>) -> Option<Seq<char>> {
    match result {
        Ok(_) => None,
        Err(error) => Some(error),
    }
}

/// The line on a reading, given the error before: an error is logged when it is
/// new, and the end of errors is logged.
pub open spec fn cpu_line(before: Option<Seq<char>>, result: Result<Binary64, Seq<char>>) -> Option<
    Seq<char>,
> {
    match result {
        Ok(_) => if before is Some {
            Some("cpu-temperature: reading recovered"@)
        } else {
            None
        },
        Err(error) => if before == Some(error) {
            None
        } else {
            Some(
                "cpu-temperature: read failed; commanding fail-safe maximum duty: "@ + error,
            )
        },
    }
}

/// A reading as mathematical data.
pub open spec fn reading_view(result: Result<Binary64, String>) -> Result<Binary64, Seq<char>> {
    match result {
        Ok(celsius) => Ok(celsius),
        Err(error) => Err(error@),
    }
}

impl CpuTempLogState {
    /// Takes a reading, and gives the temperature to act on and the line to log.
    pub fn value_or_fail_safe(&mut self, result: Result<Binary64, String>) -> (r: (
        Binary64,
        Option<String>,
    ))
        ensures
            r.0 == acted_on(reading_view(result)),
            maybe_text(final(self).last_error) == error_after(reading_view(result)),
            maybe_text(r.1) == cpu_line(maybe_text(old(self).last_error), reading_view(result)),
    {
        match result {
            Ok(celsius) => {
                let line = if self.last_error.is_some() {
                    Some("cpu-temperature: reading recovered".to_owned())
                } else {
                    None
                };
                self.last_error = None;
                (celsius, line)
            },
            Err(error) => {
                let known = match &self.last_error {
                    Some(last) => same_str(last.as_str(), error.as_str()),
                    None => false,
                };
                if known {
                    (Binary64::nan(), None)
                } else {
                    let mut line =
                        "cpu-temperature: read failed; commanding fail-safe maximum duty: ".to_owned();
                    line.append(error.as_str());
                    self.last_error = Some(error);
                    (Binary64::nan(), Some(line))
                }
            },
        }
    }
}

/// An error that lasts is logged once, and its end is logged.
pub proof fn failures_and_recoveries_are_logged(
    before: Option<Seq<char>>,
    error: Seq<char>,
    celsius: Binary64,
)
    ensures
        before != Some(error) ==> cpu_line(before, Err(error)) is Some,
        cpu_line(error_after(Err(error)), Err(error)) is None,
        cpu_line(error_after(Err(error)), Ok(celsius)) is Some,
        cpu_line(error_after(Ok(celsius)), Ok(celsius)) is None,
{
}

/// A temperature that was read is acted on as it is, and one that was not read as
/// what is not a number.
pub proof fn failed_reading_is_no_number(celsius: Binary64, error: Seq<char>)
    ensures
        acted_on(Ok(celsius)) == celsius,
        acted_on(Err(error)).is_nan(),
        error_after(Ok(celsius)) is None,
        error_after(Err(error)) == Some(error),
{
}

/// The line on an error ends with the error, and only errors and recoveries are
/// logged.
pub proof fn line_on_an_error_ends_with_it(
    before: Option<Seq<char>>,
    error: Seq<char>,
    other: Seq<char>,
    celsius: Binary64,
)
    ensures
        cpu_line(before, Err(error)) matches Some(line) ==> before != Some(error) && exists|
            start: Seq<char>,
        | line == #[trigger] (start + error),
        before != Some(error) ==> cpu_line(before, Err(error)) is Some,
        before == Some(error) ==> cpu_line(before, Err(error)) is None,
        cpu_line(before, Ok(celsius)) is Some <==> before is Some,
        error.len() == other.len() && cpu_line(None, Err(error)) == cpu_line(None, Err(other))
            ==> error == other,
{
    let start = "cpu-temperature: read failed; commanding fail-safe maximum duty: "@;
    assert(start + error == start + error);
    if error.len() == other.len() && cpu_line(None, Err(error)) == cpu_line(None, Err(other)) {
        assert((start + error).skip(start.len() as int) =~= error);
        assert((start + other).skip(start.len() as int) =~= other);
    }
}

} // verus!
