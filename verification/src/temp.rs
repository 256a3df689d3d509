//! The temperature of the processor, as the kernel gives it.

use vstd::prelude::*;
use vstd::string::*;

use crate::number::{parse_signed, signed};
use crate::quote::{quote, quoted};
use crate::text::{chars_of, string_of, trim, trimmed};

verus! {

/// Why the temperature is not known.
#[derive(Debug, Clone, PartialEq, Eq)]
pub enum TempError {
    /// The file could not be read.
    Io(String),
    /// The file holds something else.
    Parse { raw: String },
}

/// The text of an error.
pub open spec fn temp_error_text(error: TempError) -> Seq<char> {
    match error {
        TempError::Io(error) => "temperature I/O error: "@ + error@,
        TempError::Parse { raw } => "invalid millidegree temperature: "@ + quoted(raw@),
    }
}

impl TempError {
    /// Gives the text of the error.
    pub fn message(&self) -> (r: String)
        ensures
            r@ == temp_error_text(*self),
    {
        match self {
            TempError::Io(error) => {
                let mut out = "temperature I/O error: ".to_owned();
                out.append(error.as_str());
                out
            },
            TempError::Parse { raw } => {
                let mut out = "invalid millidegree temperature: ".to_owned();
                out.append(quote(raw.as_str()).as_str());
                out
            },
        }
    }
}

/// The number of thousandths of a degree that a text gives.
pub open spec fn millidegrees(raw: Seq<char>) -> Option<int> {
    signed(trimmed(raw), i64::MIN as int, i64::MAX as int)
}

/// Reads a temperature in thousandths of a degree.
pub fn parse_millidegrees_c(raw: &str) -> (r: Result<i64, TempError>)
    ensures
        match r {
            Ok(n) => millidegrees(raw@) == Some(n as int),
            Err(TempError::Parse { raw: text }) => millidegrees(raw@) is None && text@ == trimmed(
                raw@,
            ),
            Err(TempError::Io(_)) => false,
        },
{
    let chars = chars_of(raw);
    let text = trim(&chars);
    match parse_signed(text, i64::MIN, i64::MAX) {
        Some(n) => Ok(n),
        None => Err(TempError::Parse { raw: string_of(text) }),
    }
}

/// Reads a temperature in thousandths of a degree from what a file holds, or
/// from the reason why it could not be read.
pub fn read_cpu_temp_c(contents: Result<String, String>) -> (r: Result<i64, TempError>)
    ensures
        match (contents, r) {
            (Ok(raw), Ok(n)) => millidegrees(raw@) == Some(n as int),
            (Ok(raw), Err(TempError::Parse { raw: text })) => millidegrees(raw@) is None && text@
                == trimmed(raw@),
            (Err(reason), Err(TempError::Io(error))) => error == reason,
            _ => false,
        },
{
    match contents {
        Ok(raw) => parse_millidegrees_c(raw.as_str()),
        Err(reason) => Err(TempError::Io(reason)),
    }
}

/// A temperature is read as the number that is written down, whatever white space
/// stands around it.
pub proof fn millidegrees_are_read(before: Seq<char>, n: int, after: Seq<char>)
    requires
        crate::text::all_space(before),
        crate::text::all_space(after),
        i64::MIN <= n <= i64::MAX,
    ensures
        millidegrees(before + crate::number::decimal_int(n) + after) == Some(n),
{
    let text = crate::number::decimal_int(n);
    let size = if n < 0 {
        (-n) as nat
    } else {
        n as nat
    };
    crate::number::written_integer_reads_back(n, i64::MIN as int, i64::MAX as int);
    crate::number::written_numbers_are_shortest(size);
    let digits = crate::number::decimal(size);
    assert(crate::text::is_digit(digits[0]));
    assert(crate::text::is_digit(digits[digits.len() - 1]));
    assert(text.last() == digits.last());
    crate::text::trimming_cuts_space_around(before, text, after);
}

/// The text of an error says why the file could not be read, or what it holds.
pub proof fn temperature_errors_say_why(reason: String)
    ensures
        temp_error_text(TempError::Io(reason)) == "temperature I/O error: "@ + reason@,
        temp_error_text(TempError::Parse { raw: reason }) == "invalid millidegree temperature: "@
            + quoted(reason@),
{
}

} // verus!
