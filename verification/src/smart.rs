//! Drive temperatures from the output of `smartctl`.

use vstd::prelude::*;
use vstd::slice::slice_subrange;
use vstd::string::*;

use crate::bytes::{lossy, lossy_text};
use crate::json::{
    find_json_key, first_i32, first_int, in_quotes, int_after, int_view, json_i32_after_key,
    json_object_after_key, json_object_at, json_string_after_key, key_position, object_after,
    object_at, slice_view, string_after, values_stand_in_the_document,
};
use crate::number::{decimal, decimal_int, push_decimal, push_int};
use crate::split::{lines, split_lines, split_words, texts, words};
use crate::text::{
    chars_of, contains, find, has_prefix, has_text, is_digit, is_text, lemma_position, lower_text,
    lowered,
    occurs_at, seek, starts_with, string_of, trim, trim_start, trimmed, trimmed_start, Class,
};

verus! {

/// The temperature of a drive, and where in the output it stood.
#[derive(Debug, Clone, Copy, PartialEq, Eq, Structural)]
pub struct DriveTemperature {
    pub current_celsius: i32,
    pub source: SmartTemperatureSource,
}

/// The field that a temperature was taken from.
#[derive(Debug, Clone, Copy, PartialEq, Eq, Structural)]
pub enum SmartTemperatureSource {
    JsonTemperatureCurrent,
    JsonAtaSmartAttribute,
    TextCurrentDriveTemperature,
    TextAttribute,
    TextNvmeTemperature,
}

/// What a reading of a drive comes to where it does not fail.
#[derive(Debug, Clone, Copy, PartialEq, Eq, Structural)]
pub enum SmartctlOutcome {
    Temperature(DriveTemperature),
    Standby,
}

/// Whether a temperature can be that of a drive.
pub open spec fn is_plausible(celsius: int) -> bool {
    -40 <= celsius <= 125
}

/// An integer, if it can be the temperature of a drive.
pub open spec fn plausible(celsius: Option<int>) -> Option<int> {
    match celsius {
        Some(n) => if is_plausible(n) {
            Some(n)
        } else {
            None
        },
        None => None,
    }
}

/// The greater of two optional integers.
pub open spec fn greater(a: Option<int>, b: Option<int>) -> Option<int> {
    match (a, b) {
        (Some(x), Some(y)) => if y > x {
            b
        } else {
            a
        },
        (Some(x), None) => a,
        (None, _) => b,
    }
}

/// A temperature with its source.
pub open spec fn with_source(celsius: Option<int>, source: SmartTemperatureSource) -> Option<
    DriveTemperature,
> {
    match celsius {
        Some(n) => Some(DriveTemperature { current_celsius: n as i32, source }),
        None => None,
    }
}

/// The temperature that a JSON document names `temperature.current`.
pub open spec fn json_current(s: Seq<char>) -> Option<int> {
    match object_after(s, "temperature"@, 0) {
        Some(object) => plausible(int_after(object, "current"@, 0)),
        None => None,
    }
}

/// Whether an attribute of this name holds a temperature.
pub open spec fn is_attribute_name(name: Seq<char>) -> bool {
    ||| name == "Temperature_Celsius"@
    ||| name == "Temperature_Internal"@
    ||| name == "Airflow_Temperature_Cel"@
    ||| name == "Drive_Temperature"@
}

/// The position of the last `c` before position `end`.
pub open spec fn last_before(s: Seq<char>, c: char, end: int) -> Option<int>
    decreases end,
{
    if end <= 0 || end > s.len() {
        None
    } else if s[end - 1] == c {
        Some(end - 1)
    } else {
        last_before(s, c, end - 1)
    }
}

/// The temperature in the raw value of an attribute: the first number of its
/// text or, where that is missing or implausible, its number.
pub open spec fn raw_temperature(raw: Seq<char>) -> Option<int> {
    let from_text = match string_after(raw, "string"@, 0) {
        Some(text) => plausible(first_int(text)),
        None => None,
    };
    if from_text is Some {
        from_text
    } else {
        plausible(int_after(raw, "value"@, 0))
    }
}

/// The temperature of the attribute whose `name` key stands at `at`, where the
/// attribute is one of a temperature. The attribute is the object that the last
/// brace before the key opens.
pub open spec fn attribute_at(s: Seq<char>, at: int) -> Option<int> {
    match (string_after(s, "name"@, at), last_before(s, '{', at)) {
        (Some(name), Some(start)) => if is_attribute_name(name) {
            match object_at(s, start) {
                Some(object) => match object_after(object, "raw"@, 0) {
                    Some(raw) => raw_temperature(raw),
                    None => None,
                },
                None => None,
            }
        } else {
            None
        },
        _ => None,
    }
}

/// The highest temperature of the attributes whose `name` keys stand at or
/// after `from`.
pub open spec fn hottest_attribute(s: Seq<char>, from: int) -> Option<int>
    decreases s.len() - from + 1,
{
    match key_position(s, "name"@, from) {
        Some(at) => if from <= at && at <= s.len() {
            greater(attribute_at(s, at), hottest_attribute(s, at + 1))
        } else {
            None
        },
        None => None,
    }
}

/// The highest temperature of the attributes of a document is the temperature
/// of one of them, and no other has a higher one.
pub proof fn hottest_attribute_is_highest(s: Seq<char>, from: int)
    requires
        0 <= from,
    ensures
        match hottest_attribute(s, from) {
            Some(t) => {
                &&& exists|at: int|
                    from <= at && #[trigger] occurs_at(s, in_quotes("name"@), at) && attribute_at(s, at)
                        == Some(t)
                &&& forall|at: int|
                    from <= at && #[trigger] occurs_at(s, in_quotes("name"@), at) ==> match attribute_at(
                        s,
                        at,
                    ) {
                        Some(other) => other <= t,
                        None => true,
                    }
            },
            None => forall|at: int|
                from <= at && #[trigger] occurs_at(s, in_quotes("name"@), at) ==> attribute_at(s, at) is None,
        },
    decreases s.len() - from + 1,
{
    lemma_position(s, in_quotes("name"@), from);
    if let Some(at) = key_position(s, "name"@, from) {
        if at <= s.len() {
            hottest_attribute_is_highest(s, at + 1);
        }
    }
}

/// The number after the first colon of a line.
pub open spec fn int_after_colon(line: Seq<char>) -> Option<int> {
    let colon = seek(line, Class::One(':'), 0);
    if colon < line.len() {
        first_int(line.skip(colon + 1))
    } else {
        None
    }
}

/// The temperature that a line of text gives outright.
pub open spec fn direct_reading(line: Seq<char>) -> Option<DriveTemperature> {
    let text = trimmed(line);
    let celsius = plausible(int_after_colon(text));
    if starts_with(lowered(text), "current drive temperature:"@) && celsius is Some {
        with_source(celsius, SmartTemperatureSource::TextCurrentDriveTemperature)
    } else if starts_with(lowered(text), "temperature:"@) && contains(lowered(text), "celsius"@)
        && celsius is Some {
        with_source(celsius, SmartTemperatureSource::TextNvmeTemperature)
    } else {
        None
    }
}

/// Whether a line in lower case is one of an attribute that holds a
/// temperature.
pub open spec fn is_attribute_line(lower: Seq<char>) -> bool {
    ||| contains(lower, "temperature_celsius"@)
    ||| contains(lower, "temperature_internal"@)
    ||| contains(lower, "airflow_temperature_cel"@)
    ||| contains(lower, "drive_temperature"@)
}

/// The number that the tenth word of a line starts with.
pub open spec fn raw_value(line: Seq<char>) -> Option<int> {
    if words(line).len() > 9 {
        first_int(words(line)[9])
    } else {
        None
    }
}

/// The temperature in a line of the table of attributes.
pub open spec fn attribute_reading(line: Seq<char>) -> Option<int> {
    let text = trimmed(line);
    if is_attribute_line(lowered(text)) {
        plausible(raw_value(text))
    } else {
        None
    }
}

/// The temperature of the first line that gives one outright.
pub open spec fn first_direct(rows: Seq<Seq<char>>) -> Option<DriveTemperature>
    decreases rows.len(),
{
    if rows.len() == 0 {
        None
    } else if direct_reading(rows[0]) is Some {
        direct_reading(rows[0])
    } else {
        first_direct(rows.drop_first())
    }
}

/// The highest temperature in the lines of a table of attributes.
pub open spec fn hottest_row(rows: Seq<Seq<char>>) -> Option<int>
    decreases rows.len(),
{
    if rows.len() == 0 {
        None
    } else {
        greater(hottest_row(rows.drop_last()), attribute_reading(rows.last()))
    }
}

/// The highest temperature in a table is that of one line, and no other line
/// has a higher one.
pub proof fn hottest_row_is_highest(rows: Seq<Seq<char>>)
    ensures
        match hottest_row(rows) {
            Some(t) => {
                &&& exists|i: int| 0 <= i < rows.len() && attribute_reading(#[trigger] rows[i]) == Some(t)
                &&& forall|i: int|
                    0 <= i < rows.len() ==> match attribute_reading(#[trigger] rows[i]) {
                        Some(other) => other <= t,
                        None => true,
                    }
            },
            None => forall|i: int|
                0 <= i < rows.len() ==> attribute_reading(#[trigger] rows[i]) is None,
        },
    decreases rows.len(),
{
    if rows.len() > 0 {
        let before = rows.drop_last();
        hottest_row_is_highest(before);
        assert(forall|i: int| 0 <= i < before.len() ==> before[i] == rows[i]);
        if let Some(t) = hottest_row(rows) {
            if hottest_row(before) == Some(t) {
                let i = choose|i: int|
                    0 <= i < before.len() && attribute_reading(#[trigger] before[i]) == Some(t);
                assert(attribute_reading(rows[i]) == Some(t));
            } else {
                assert(attribute_reading(rows[rows.len() - 1]) == Some(t));
            }
        }
    }
}

/// The temperature in a text: that of the first line that gives one outright,
/// else the highest in the table of attributes.
pub open spec fn text_temperature(s: Seq<char>) -> Option<DriveTemperature> {
    match first_direct(lines(s)) {
        Some(t) => Some(t),
        None => with_source(hottest_row(lines(s)), SmartTemperatureSource::TextAttribute),
    }
}

/// The temperature in the output of `smartctl`, which is a JSON document where
/// it starts with a brace.
pub open spec fn smart_temperature(s: Seq<char>) -> Option<DriveTemperature> {
    let body = trimmed_start(s);
    if body.len() > 0 && body[0] == '{' {
        if json_current(body) is Some {
            with_source(json_current(body), SmartTemperatureSource::JsonTemperatureCurrent)
        } else {
            with_source(hottest_attribute(body, 0), SmartTemperatureSource::JsonAtaSmartAttribute)
        }
    } else {
        text_temperature(s)
    }
}

/// Tests whether a temperature can be that of a drive.
pub fn is_plausible_temperature(celsius: i32) -> (r: bool)
    ensures
        r == is_plausible(celsius as int),
{
    -40 <= celsius && celsius <= 125
}

/// Keeps a temperature that can be that of a drive.
fn keep_plausible(celsius: Option<i32>) -> (r: Option<i32>)
    ensures
        int_view(r) == plausible(int_view(celsius)),
{
    match celsius {
        Some(n) => if is_plausible_temperature(n) {
            Some(n)
        } else {
            None
        },
        None => None,
    }
}

/// Takes the greater of two temperatures.
fn greater_of(a: Option<i32>, b: Option<i32>) -> (r: Option<i32>)
    ensures
        int_view(r) == greater(int_view(a), int_view(b)),
{
    match (a, b) {
        (Some(x), Some(y)) => if y > x {
            Some(y)
        } else {
            Some(x)
        },
        (Some(x), None) => Some(x),
        (None, other) => other,
    }
}

/// Tests whether an attribute of this name holds a temperature.
pub fn is_temperature_attribute_name(name: &[char]) -> (r: bool)
    ensures
        r == is_attribute_name(name@),
{
    is_text(name, "Temperature_Celsius") || is_text(name, "Temperature_Internal") || is_text(
        name,
        "Airflow_Temperature_Cel",
    ) || is_text(name, "Drive_Temperature")
}

/// Tests whether a line in lower case is one of a temperature attribute.
pub fn is_temperature_attribute_line(lower: &[char]) -> (r: bool)
    ensures
        r == is_attribute_line(lower@),
{
    has_text(lower, "temperature_celsius") || has_text(lower, "temperature_internal") || has_text(
        lower,
        "airflow_temperature_cel",
    ) || has_text(lower, "drive_temperature")
}

/// Reads `temperature.current` of a document.
pub fn parse_json_temperature_current(input: &[char]) -> (r: Option<DriveTemperature>)
    ensures
        r == with_source(json_current(input@), SmartTemperatureSource::JsonTemperatureCurrent),
{
    let object = match json_object_after_key(input, "temperature", 0) {
        Some(object) => object,
        None => {
            return None;
        },
    };
    match keep_plausible(json_i32_after_key(object, "current", 0)) {
        Some(n) => Some(
            DriveTemperature {
                current_celsius: n,
                source: SmartTemperatureSource::JsonTemperatureCurrent,
            },
        ),
        None => None,
    }
}

/// Looks for the last `c` before `end`.
fn find_last_before(s: &[char], c: char, end: usize) -> (r: Option<usize>)
    requires
        end <= s@.len(),
    ensures
        crate::json::index_view(r) == last_before(s@, c, end as int),
        r matches Some(at) ==> at < end,
{
    let mut i: usize = end;
    while i > 0
        invariant
            i <= end <= s@.len(),
            last_before(s@, c, end as int) == last_before(s@, c, i as int),
        decreases i,
    {
        i = i - 1;
        if s[i] == c {
            return Some(i);
        }
    }
    None
}

/// Reads the temperature in the raw value of an attribute.
fn parse_raw_temperature(raw: &[char]) -> (r: Option<i32>)
    ensures
        int_view(r) == raw_temperature(raw@),
{
    let from_text: Option<i32> = match json_string_after_key(raw, "string", 0) {
        Some(text) => keep_plausible(first_i32(text)),
        None => None,
    };
    if from_text.is_some() {
        from_text
    } else {
        keep_plausible(json_i32_after_key(raw, "value", 0))
    }
}

/// Reads the temperature of the attribute whose `name` key stands at `at`.
fn parse_attribute_at(input: &[char], at: usize) -> (r: Option<i32>)
    requires
        at <= input@.len(),
    ensures
        int_view(r) == attribute_at(input@, at as int),
{
    let name = match json_string_after_key(input, "name", at) {
        Some(name) => name,
        None => {
            return None;
        },
    };
    if !is_temperature_attribute_name(name) {
        return None;
    }
    let start: usize = match find_last_before(input, '{', at) {
        Some(start) => start,
        None => {
            return None;
        },
    };
    let object = match json_object_at(input, start) {
        Some(object) => object,
        None => {
            return None;
        },
    };
    match json_object_after_key(object, "raw", 0) {
        Some(raw) => parse_raw_temperature(raw),
        None => None,
    }
}

/// Reads the highest temperature of the attributes of a document.
pub fn parse_json_ata_temperature_attribute(input: &[char]) -> (r: Option<DriveTemperature>)
    ensures
        r == with_source(
            hottest_attribute(input@, 0),
            SmartTemperatureSource::JsonAtaSmartAttribute,
        ),
{
    let length: usize = input.len();
    let mut offset: usize = 0;
    let mut hottest: Option<i32> = None;
    loop
        invariant
            offset <= length,
            length == input@.len(),
            hottest_attribute(input@, 0) == greater(
                int_view(hottest),
                hottest_attribute(input@, offset as int),
            ),
        decreases input@.len() - offset,
    {
        match find_json_key(input, "name", offset) {
            Some(at) => {
                let found = parse_attribute_at(input, at);
                hottest = greater_of(hottest, found);
                offset = at + 1;
            },
            None => {
                return match hottest {
                    Some(n) => Some(
                        DriveTemperature {
                            current_celsius: n,
                            source: SmartTemperatureSource::JsonAtaSmartAttribute,
                        },
                    ),
                    None => None,
                };
            },
        }
    }
}

/// Reads the number in the tenth word of a line.
pub fn smart_attribute_raw_value(line: &[char]) -> (r: Option<i32>)
    ensures
        int_view(r) == raw_value(line@),
{
    let fields = split_words(line);
    assert(texts(fields@).len() == fields@.len());
    if fields.len() > 9 {
        assert(texts(fields@)[9] == fields@[9]@);
        first_i32(fields[9])
    } else {
        None
    }
}

/// Reads the number after the first colon of a line.
pub fn first_i32_after_colon(line: &[char]) -> (r: Option<i32>)
    ensures
        int_view(r) == int_after_colon(line@),
{
    let colon: usize = find(line, Class::One(':'), 0);
    if colon == line.len() {
        return None;
    }
    let rest = slice_subrange(line, colon + 1, line.len());
    assert(rest@ == line@.skip(colon + 1));
    first_i32(rest)
}

/// Reads the temperature that a line gives outright.
fn parse_direct_reading(line: &[char]) -> (r: Option<DriveTemperature>)
    ensures
        r == direct_reading(line@),
{
    let text = trim(line);
    let lower = lower_text(text);
    let celsius: i32 = match keep_plausible(first_i32_after_colon(text)) {
        Some(n) => n,
        None => {
            return None;
        },
    };
    if has_prefix(&lower, "current drive temperature:") {
        Some(
            DriveTemperature {
                current_celsius: celsius,
                source: SmartTemperatureSource::TextCurrentDriveTemperature,
            },
        )
    } else if has_prefix(&lower, "temperature:") && has_text(&lower, "celsius") {
        Some(
            DriveTemperature {
                current_celsius: celsius,
                source: SmartTemperatureSource::TextNvmeTemperature,
            },
        )
    } else {
        None
    }
}

/// Reads the temperature in a line of the table of attributes.
fn parse_attribute_reading(line: &[char]) -> (r: Option<i32>)
    ensures
        int_view(r) == attribute_reading(line@),
{
    let text = trim(line);
    let lower = lower_text(text);
    if is_temperature_attribute_line(&lower) {
        keep_plausible(smart_attribute_raw_value(text))
    } else {
        None
    }
}

/// Reads the temperature in a text that is no JSON document.
pub fn parse_text_temperature(output: &[char]) -> (r: Option<DriveTemperature>)
    ensures
        r == text_temperature(output@),
{
    let rows = split_lines(output);
    let ghost all = lines(output@);
    let mut best: Option<i32> = None;
    let mut i: usize = 0;
    assert(all.skip(0) == all);
    while i < rows.len()
        invariant
            i <= rows@.len(),
            texts(rows@) == all,
            all == lines(output@),
            first_direct(all) == first_direct(all.skip(i as int)),
            int_view(best) == hottest_row(all.take(i as int)),
        decreases rows@.len() - i,
    {
        let row = rows[i];
        assert(texts(rows@)[i as int] == row@);
        assert(all.skip(i as int)[0] == row@);
        assert(all.skip(i as int).drop_first() == all.skip(i + 1));
        assert(all.take(i + 1).drop_last() == all.take(i as int));
        let direct = parse_direct_reading(row);
        if direct.is_some() {
            return direct;
        }
        best = greater_of(best, parse_attribute_reading(row));
        i = i + 1;
    }
    assert(texts(rows@).len() == rows@.len());
    assert(all.take(i as int) == all);
    assert(all.skip(i as int) == Seq::<Seq<char>>::empty());
    match best {
        Some(n) => Some(
            DriveTemperature { current_celsius: n, source: SmartTemperatureSource::TextAttribute },
        ),
        None => None,
    }
}

/// Reads the temperature in the output of `smartctl`.
pub fn parse_smart_temperature(output: &str) -> (r: Option<DriveTemperature>)
    ensures
        r == smart_temperature(output@),
{
    let chars = chars_of(output);
    let body = trim_start(&chars);
    if body.len() > 0 && body[0] == '{' {
        let current = parse_json_temperature_current(body);
        if current.is_some() {
            current
        } else {
            parse_json_ata_temperature_attribute(body)
        }
    } else {
        parse_text_temperature(&chars)
    }
}

/// Why a drive could not be read.
#[derive(Debug, Clone, PartialEq, Eq)]
pub enum SmartctlError {
    /// The process could not be started; the text is the reason.
    Spawn(String),
    /// The process could not be waited for; the text is the reason.
    Wait(String),
    /// The process took too long.
    Timeout { milliseconds: u64 },
    /// The time for all drives was used up before this one.
    BatchTimeout,
    /// The process ended and its output holds no temperature.
    NoTemperature { status: Option<i32>, detail: String },
}

/// What a process has left: its two streams, as bytes, and its exit status.
#[derive(Debug, Clone, PartialEq, Eq)]
pub struct SmartctlOutput {
    pub stdout: Vec<u8>,
    pub stderr: Vec<u8>,
    pub status: Option<i32>,
}

/// The text of an error.
pub open spec fn error_text(error: SmartctlError) -> Seq<char> {
    match error {
        SmartctlError::Spawn(reason) => "failed to run smartctl: "@ + reason@,
        SmartctlError::Wait(reason) => "failed while waiting for smartctl: "@ + reason@,
        SmartctlError::Timeout { milliseconds } => if milliseconds % 1000 == 0 {
            "smartctl timed out after "@ + decimal((milliseconds / 1000) as nat) + " seconds"@
        } else {
            "smartctl timed out after "@ + decimal(milliseconds as nat) + " milliseconds"@
        },
        SmartctlError::BatchTimeout => "SMART batch deadline reached before device poll"@,
        SmartctlError::NoTemperature { status, detail } => match status {
            Some(code) => "smartctl returned no temperature (exit status "@ + decimal_int(
                code as int,
            ) + "): "@ + detail@,
            None => "smartctl returned no temperature: "@ + detail@,
        },
    }
}

impl SmartctlError {
    /// Says in words what went wrong.
    pub fn message(&self) -> (r: String)
        ensures
            r@ == error_text(*self),
    {
        let mut out = String::new();
        match self {
            SmartctlError::Spawn(reason) => {
                out.append("failed to run smartctl: ");
                out.append(reason.as_str());
            },
            SmartctlError::Wait(reason) => {
                out.append("failed while waiting for smartctl: ");
                out.append(reason.as_str());
            },
            SmartctlError::Timeout { milliseconds } => {
                out.append("smartctl timed out after ");
                if *milliseconds % 1000 == 0 {
                    push_decimal(&mut out, *milliseconds / 1000);
                    out.append(" seconds");
                } else {
                    push_decimal(&mut out, *milliseconds);
                    out.append(" milliseconds");
                }
            },
            SmartctlError::BatchTimeout => {
                out.append("SMART batch deadline reached before device poll");
            },
            SmartctlError::NoTemperature { status, detail } => {
                match status {
                    Some(code) => {
                        out.append("smartctl returned no temperature (exit status ");
                        push_int(&mut out, *code as i64);
                        out.append("): ");
                    },
                    None => {
                        out.append("smartctl returned no temperature: ");
                    },
                }
                out.append(detail.as_str());
            },
        }
        out
    }
}

/// Whether a message says that a device is in standby.
pub open spec fn mentions_standby(message: Seq<char>) -> bool {
    contains(lowered(message), "device"@) && contains(lowered(message), "standby"@)
}

/// Whether a text is the word standby, in any case.
pub open spec fn is_standby(text: Option<Seq<char>>) -> bool {
    text matches Some(word) && lowered(word) == "standby"@
}

/// Whether the power mode in a document is standby.
pub open spec fn power_mode_standby(s: Seq<char>) -> bool {
    object_after(s, "power_mode"@, 0) matches Some(mode) && (is_standby(
        string_after(mode, "name"@, 0),
    ) || is_standby(string_after(mode, "string"@, 0)))
}

/// Whether a message in a document says that a device is in standby.
pub open spec fn messages_mention_standby(s: Seq<char>) -> bool {
    exists|at: int| #[trigger]
        occurs_at(s, in_quotes("string"@), at) && (string_after(s, "string"@, at) matches Some(message)
            && mentions_standby(message))
}

/// Whether one of some lines says that a device is in standby.
pub open spec fn some_line_mentions_standby(rows: Seq<Seq<char>>) -> bool {
    exists|i: int| 0 <= i < rows.len() && mentions_standby(#[trigger] rows[i])
}

/// Whether the output of `smartctl` says that the drive is in standby.
pub open spec fn reports_standby(stdout: Seq<char>, stderr: Seq<char>) -> bool {
    ||| power_mode_standby(stdout)
    ||| messages_mention_standby(stdout)
    ||| some_line_mentions_standby(lines(stderr))
}

/// The first line that is more than white space, without the white space
/// around it.
pub open spec fn first_nonempty(rows: Seq<Seq<char>>) -> Option<Seq<char>>
    decreases rows.len(),
{
    if rows.len() == 0 {
        None
    } else if trimmed(rows[0]).len() > 0 {
        Some(trimmed(rows[0]))
    } else {
        first_nonempty(rows.drop_first())
    }
}

/// The message of `smartctl` in a document.
pub open spec fn document_message(s: Seq<char>) -> Option<Seq<char>> {
    match object_after(s, "smartctl"@, 0) {
        Some(messages) => string_after(messages, "string"@, 0),
        None => None,
    }
}

/// Why there is no temperature: what the error stream says first, else the
/// message in the document.
pub open spec fn missing_detail(stdout: Seq<char>, stderr: Seq<char>) -> Seq<char> {
    match first_nonempty(lines(stderr)) {
        Some(line) => line,
        None => match document_message(stdout) {
            Some(message) => message,
            None => "temperature field missing from SMART output"@,
        },
    }
}

/// What a reading comes to, for the text of the two streams and the exit
/// status. A temperature counts whatever the status is.
pub open spec fn classified(
    stdout: Seq<char>,
    stderr: Seq<char>,
    status: Option<i32>,
    r: Result<SmartctlOutcome, SmartctlError>,
) -> bool {
    match smart_temperature(stdout) {
        Some(t) => r == Ok::<SmartctlOutcome, SmartctlError>(SmartctlOutcome::Temperature(t)),
        None => if reports_standby(stdout, stderr) {
            r == Ok::<SmartctlOutcome, SmartctlError>(SmartctlOutcome::Standby)
        } else {
            r matches Err(SmartctlError::NoTemperature { status: code, detail }) && code == status
                && detail@ == missing_detail(stdout, stderr)
        },
    }
}

/// Tests whether a message says that a device is in standby.
fn test_mentions_standby(message: &[char]) -> (r: bool)
    ensures
        r == mentions_standby(message@),
{
    let lower = lower_text(message);
    has_text(&lower, "device") && has_text(&lower, "standby")
}

/// Tests whether a text is the word standby.
fn test_is_standby(text: Option<&[char]>) -> (r: bool)
    ensures
        r == is_standby(slice_view(text)),
{
    match text {
        Some(word) => {
            let lower = lower_text(word);
            is_text(&lower, "standby")
        },
        None => false,
    }
}

/// Tests whether a message in a document says that a device is in standby.
pub fn json_messages_contain_standby(input: &[char]) -> (r: bool)
    ensures
        r == messages_mention_standby(input@),
{
    let length: usize = input.len();
    let mut offset: usize = 0;
    loop
        invariant
            offset <= length,
            length == input@.len(),
            forall|at: int|
                0 <= at < offset && #[trigger] occurs_at(input@, in_quotes("string"@), at) ==> !(
                string_after(input@, "string"@, at) matches Some(message) && mentions_standby(
                    message,
                )),
        decreases length - offset,
    {
        proof {
            lemma_position(input@, in_quotes("string"@), offset as int);
        }
        match find_json_key(input, "string", offset) {
            Some(at) => {
                assert(occurs_at(input@, in_quotes("string"@), at as int));
                if let Some(message) = json_string_after_key(input, "string", at) {
                    if test_mentions_standby(message) {
                        return true;
                    }
                }
                offset = at + 1;
            },
            None => {
                return false;
            },
        }
    }
}

/// Tests whether the output of `smartctl` says that the drive is in standby.
pub fn smartctl_reports_standby(stdout: &[char], stderr: &[char]) -> (r: bool)
    ensures
        r == reports_standby(stdout@, stderr@),
{
    if let Some(mode) = json_object_after_key(stdout, "power_mode", 0) {
        if test_is_standby(json_string_after_key(mode, "name", 0)) || test_is_standby(
            json_string_after_key(mode, "string", 0),
        ) {
            return true;
        }
    }
    if json_messages_contain_standby(stdout) {
        return true;
    }
    let rows = split_lines(stderr);
    let ghost all = lines(stderr@);
    assert(texts(rows@).len() == rows@.len());
    for i in 0..rows.len()
        invariant
            texts(rows@) == all,
            all == lines(stderr@),
            forall|k: int| 0 <= k < i ==> !mentions_standby(#[trigger] all[k]),
            rows@.len() == all.len(),
    {
        assert(texts(rows@)[i as int] == rows@[i as int]@);
        if test_mentions_standby(rows[i]) {
            assert(mentions_standby(all[i as int]));
            return true;
        }
    }
    false
}

/// Takes the first line that is more than white space.
pub fn first_nonempty_line(input: &[char]) -> (r: Option<String>)
    ensures
        match r {
            Some(line) => first_nonempty(lines(input@)) == Some(line@),
            None => first_nonempty(lines(input@)) is None,
        },
{
    let rows = split_lines(input);
    let ghost all = lines(input@);
    assert(all.skip(0) == all);
    assert(texts(rows@).len() == rows@.len());
    for i in 0..rows.len()
        invariant
            texts(rows@) == all,
            all == lines(input@),
            rows@.len() == all.len(),
            first_nonempty(all) == first_nonempty(all.skip(i as int)),
    {
        assert(texts(rows@)[i as int] == rows@[i as int]@);
        assert(all.skip(i as int)[0] == rows@[i as int]@);
        assert(all.skip(i as int).drop_first() == all.skip(i + 1));
        let line = trim(rows[i]);
        if line.len() > 0 {
            return Some(string_of(line));
        }
    }
    assert(all.skip(rows@.len() as int) == Seq::<Seq<char>>::empty());
    None
}

/// Takes the message of `smartctl` out of a document.
pub fn smartctl_message(input: &[char]) -> (r: Option<String>)
    ensures
        match r {
            Some(message) => document_message(input@) == Some(message@),
            None => document_message(input@) is None,
        },
{
    match json_object_after_key(input, "smartctl", 0) {
        Some(messages) => match json_string_after_key(messages, "string", 0) {
            Some(text) => Some(string_of(text)),
            None => None,
        },
        None => None,
    }
}

/// Decides what a reading comes to.
pub fn classify_smartctl_output(stdout: &str, stderr: &str, status: Option<i32>) -> (r: Result<
    SmartctlOutcome,
    SmartctlError,
>)
    ensures
        classified(stdout@, stderr@, status, r),
{
    if let Some(temperature) = parse_smart_temperature(stdout) {
        return Ok(SmartctlOutcome::Temperature(temperature));
    }
    let out_chars = chars_of(stdout);
    let err_chars = chars_of(stderr);
    if smartctl_reports_standby(&out_chars, &err_chars) {
        return Ok(SmartctlOutcome::Standby);
    }
    let detail = match first_nonempty_line(&err_chars) {
        Some(line) => line,
        None => match smartctl_message(&out_chars) {
            Some(message) => message,
            None => "temperature field missing from SMART output".to_owned(),
        },
    };
    Err(SmartctlError::NoTemperature { status, detail })
}

/// Decides what a reading comes to, for a process that was run, or why it was
/// not.
pub fn read_smart_temperature(run: Result<SmartctlOutput, SmartctlError>) -> (r: Result<
    SmartctlOutcome,
    SmartctlError,
>)
    ensures
        match run {
            Ok(output) => classified(lossy(output.stdout@), lossy(output.stderr@), output.status, r),
            Err(error) => r == Err::<SmartctlOutcome, SmartctlError>(error),
        },
{
    match run {
        Ok(output) => {
            let stdout = lossy_text(&output.stdout);
            let stderr = lossy_text(&output.stderr);
            classify_smartctl_output(stdout.as_str(), stderr.as_str(), output.status)
        },
        Err(error) => Err(error),
    }
}

proof fn lemma_stretch_contains(s: Seq<char>, a: int, b: int, word: Seq<char>)
    requires
        0 <= a <= b <= s.len(),
        contains(lowered(s.subrange(a, b)), word),
    ensures
        contains(lowered(s), word),
{
    let part = lowered(s.subrange(a, b));
    let at = choose|at: int| occurs_at(part, word, at);
    assert(lowered(s).subrange(a + at, a + at + word.len()) =~= part.subrange(
        at,
        at + word.len(),
    ));
    assert(occurs_at(lowered(s), word, a + at));
}

/// A drive counts as asleep only where the output names it: the power mode is
/// the word standby, or one message, or one line of the error stream, has both
/// the words device and standby in it, in any case. So an output without the
/// letters of standby is never one of a drive that is asleep.
pub proof fn standby_has_to_be_named(stdout: Seq<char>, stderr: Seq<char>, status: Option<i32>)
    requires
        classified(
            stdout,
            stderr,
            status,
            Ok::<SmartctlOutcome, SmartctlError>(SmartctlOutcome::Standby),
        ),
    ensures
        ({
            ||| exists|word: Seq<char>| #[trigger]
                lowered(word) == "standby"@ && (object_after(stdout, "power_mode"@, 0) matches Some(
                    mode,
                ) && (string_after(mode, "name"@, 0) == Some(word) || string_after(
                    mode,
                    "string"@,
                    0,
                ) == Some(word)))
            ||| exists|at: int| #[trigger]
                occurs_at(stdout, in_quotes("string"@), at) && (string_after(
                    stdout,
                    "string"@,
                    at,
                ) matches Some(message) && contains(lowered(message), "device"@) && contains(
                    lowered(message),
                    "standby"@,
                ))
            ||| exists|i: int|
                0 <= i < lines(stderr).len() && contains(
                    lowered(#[trigger] lines(stderr)[i]),
                    "device"@,
                ) && contains(lowered(lines(stderr)[i]), "standby"@)
        }),
        contains(lowered(stdout), "standby"@) || contains(lowered(stderr), "standby"@),
        smart_temperature(stdout) is None,
{
    assert(reports_standby(stdout, stderr));
    if power_mode_standby(stdout) {
        let mode = object_after(stdout, "power_mode"@, 0)->0;
        let key = if is_standby(string_after(mode, "name"@, 0)) {
            "name"@
        } else {
            "string"@
        };
        let word = string_after(mode, key, 0)->0;
        assert(lowered(word) == "standby"@);
        values_stand_in_the_document(stdout, "power_mode"@, 0);
        values_stand_in_the_document(mode, key, 0);
        let (a, b) = choose|a: int, b: int|
            0 < a <= b < mode.len() && mode[a - 1] == '"' && mode[b] == '"' && word
                == #[trigger] mode.subrange(a, b);
        let lower = lowered(word);
        assert(lower.subrange(0, lower.len() as int) =~= lower);
        assert(occurs_at(lower, "standby"@, 0));
        lemma_stretch_contains(mode, a, b, "standby"@);
        let (c, d) = choose|c: int, d: int|
            0 < c < d <= stdout.len() && stdout[c] == '{' && stdout[d - 1] == '}' && mode
                == #[trigger] stdout.subrange(c, d);
        lemma_stretch_contains(stdout, c, d, "standby"@);
    } else if messages_mention_standby(stdout) {
        let at = choose|at: int| #[trigger]
            occurs_at(stdout, in_quotes("string"@), at) && (string_after(
                stdout,
                "string"@,
                at,
            ) matches Some(message) && mentions_standby(message));
        let message = string_after(stdout, "string"@, at)->0;
        assert(contains(lowered(message), "standby"@));
        values_stand_in_the_document(stdout, "string"@, at);
        let (a, b) = choose|a: int, b: int|
            at < a <= b < stdout.len() && stdout[a - 1] == '"' && stdout[b] == '"' && message
                == #[trigger] stdout.subrange(a, b);
        lemma_stretch_contains(stdout, a, b, "standby"@);
    } else {
        let i = choose|i: int|
            0 <= i < lines(stderr).len() && mentions_standby(#[trigger] lines(stderr)[i]);
        let line = lines(stderr)[i];
        assert(contains(lowered(line), "standby"@) && contains(lowered(line), "device"@));
        crate::split::lines_stand_in_the_text(stderr, i);
        let (a, b) = choose|a: int, b: int|
            0 <= a <= b <= stderr.len() && line == #[trigger] stderr.subrange(a, b);
        lemma_stretch_contains(stderr, a, b, "standby"@);
    }
}

/// Where there is no temperature, each of the signs of standby is enough: the
/// power mode, a message, or a line of the error stream, in any case of their
/// letters and whatever the exit status is.
pub proof fn named_standby_is_standby(
    stdout: Seq<char>,
    stderr: Seq<char>,
    status: Option<i32>,
    r: Result<SmartctlOutcome, SmartctlError>,
    at: int,
)
    requires
        classified(stdout, stderr, status, r),
        smart_temperature(stdout) is None,
    ensures
        (object_after(stdout, "power_mode"@, 0) matches Some(mode) && (string_after(
            mode,
            "name"@,
            0,
        ) matches Some(word) && lowered(word) == "standby"@)) ==> r == Ok::<
            SmartctlOutcome,
            SmartctlError,
        >(SmartctlOutcome::Standby),
        (object_after(stdout, "power_mode"@, 0) matches Some(mode) && (string_after(
            mode,
            "string"@,
            0,
        ) matches Some(word) && lowered(word) == "standby"@)) ==> r == Ok::<
            SmartctlOutcome,
            SmartctlError,
        >(SmartctlOutcome::Standby),
        occurs_at(stdout, in_quotes("string"@), at) && (string_after(
            stdout,
            "string"@,
            at,
        ) matches Some(message) && contains(lowered(message), "device"@) && contains(
            lowered(message),
            "standby"@,
        )) ==> r == Ok::<SmartctlOutcome, SmartctlError>(SmartctlOutcome::Standby),
        0 <= at < lines(stderr).len() && contains(lowered(lines(stderr)[at]), "device"@)
            && contains(lowered(lines(stderr)[at]), "standby"@) ==> r == Ok::<
            SmartctlOutcome,
            SmartctlError,
        >(SmartctlOutcome::Standby),
{
    if 0 <= at < lines(stderr).len() && contains(lowered(lines(stderr)[at]), "device"@) && contains(
        lowered(lines(stderr)[at]),
        "standby"@,
    ) {
        assert(mentions_standby(lines(stderr)[at]));
    }
}

/// A temperature counts whatever else the output and the exit status say. An
/// output without one, and without a word on standby, is a failure that keeps
/// the exit status.
pub proof fn temperature_comes_first(
    stdout: Seq<char>,
    stderr: Seq<char>,
    status: Option<i32>,
    r: Result<SmartctlOutcome, SmartctlError>,
)
    requires
        classified(stdout, stderr, status, r),
    ensures
        smart_temperature(stdout) matches Some(t) <==> r == Ok::<SmartctlOutcome, SmartctlError>(
            SmartctlOutcome::Temperature(smart_temperature(stdout)->0),
        ) && smart_temperature(stdout) is Some,
        r matches Ok(SmartctlOutcome::Temperature(t)) ==> smart_temperature(stdout) == Some(t) && -40
            <= t.current_celsius <= 125,
        smart_temperature(stdout) is None && !contains(lowered(stdout), "standby"@) && !contains(
            lowered(stderr),
            "standby"@,
        ) ==> (r matches Err(SmartctlError::NoTemperature { status: code, detail: _ }) && code
            == status),
        r matches Err(error) ==> error is NoTemperature,
{
    temperatures_are_plausible(stdout);
    if r == Ok::<SmartctlOutcome, SmartctlError>(SmartctlOutcome::Standby) {
        standby_has_to_be_named(stdout, stderr, status);
    }
}

/// Every temperature that is read is from 40 degrees below zero to 125 above.
pub proof fn temperatures_are_plausible(s: Seq<char>)
    ensures
        smart_temperature(s) matches Some(t) ==> -40 <= t.current_celsius <= 125,
{
    let body = trimmed_start(s);
    hottest_attribute_is_highest(body, 0);
    hottest_row_is_highest(lines(s));
    lemma_first_direct(lines(s));
    if let Some(t) = hottest_attribute(body, 0) {
        let at = choose|at: int|
            0 <= at && #[trigger] occurs_at(body, in_quotes("name"@), at) && attribute_at(body, at)
                == Some(t);
        assert(is_plausible(t));
    }
    if let Some(t) = hottest_row(lines(s)) {
        let i = choose|i: int|
            0 <= i < lines(s).len() && attribute_reading(#[trigger] lines(s)[i]) == Some(t);
        assert(is_plausible(t));
    }
}

proof fn lemma_first_direct(rows: Seq<Seq<char>>)
    ensures
        match first_direct(rows) {
            Some(t) => exists|i: int|
                #![trigger rows[i]]
                0 <= i < rows.len() && direct_reading(rows[i]) == Some(t) && forall|k: int|
                    0 <= k < i ==> direct_reading(#[trigger] rows[k]) is None,
            None => forall|k: int| 0 <= k < rows.len() ==> direct_reading(#[trigger] rows[k]) is None,
        },
        first_direct(rows) matches Some(t) ==> -40 <= t.current_celsius <= 125,
    decreases rows.len(),
{
    if rows.len() > 0 {
        if direct_reading(rows[0]) is Some {
            assert(0 <= 0 < rows.len());
        } else {
            let rest = rows.drop_first();
            lemma_first_direct(rest);
            assert(forall|k: int| 0 <= k < rest.len() ==> rest[k] == rows[k + 1]);
            match first_direct(rest) {
                Some(t) => {
                    let i = choose|i: int|
                        #![trigger rest[i]]
                        0 <= i < rest.len() && direct_reading(rest[i]) == Some(t) && forall|k: int|
                            0 <= k < i ==> direct_reading(#[trigger] rest[k]) is None;
                    assert forall|k: int| 0 <= k < i + 1 implies direct_reading(#[trigger] rows[k])
                        is None by {
                        if k > 0 {
                            assert(rest[k - 1] == rows[k]);
                        }
                    }
                    assert(direct_reading(rows[i + 1]) == Some(t));
                },
                None => {
                    assert forall|k: int| 0 <= k < rows.len() implies direct_reading(
                        #[trigger] rows[k],
                    ) is None by {
                        if k > 0 {
                            assert(rest[k - 1] == rows[k]);
                        }
                    }
                },
            }
        }
    }
}

/// In a document the temperature that it names as the current one comes first,
/// and the attributes only count without it. Outside of documents a line that
/// gives the temperature outright comes before every table of attributes.
pub proof fn sources_have_their_order(s: Seq<char>, celsius: int)
    requires
        i32::MIN <= celsius <= i32::MAX,
    ensures
        ({
            let body = trimmed_start(s);
            let document = body.len() > 0 && body[0] == '{';
            let current = object_after(body, "temperature"@, 0) matches Some(object) && int_after(
                object,
                "current"@,
                0,
            ) == Some(celsius) && -40 <= celsius <= 125;
            &&& document && current ==> smart_temperature(s) == Some(
                DriveTemperature {
                    current_celsius: celsius as i32,
                    source: SmartTemperatureSource::JsonTemperatureCurrent,
                },
            )
            &&& document ==> (smart_temperature(s) matches Some(t) ==> t.source
                == SmartTemperatureSource::JsonTemperatureCurrent || t.source
                == SmartTemperatureSource::JsonAtaSmartAttribute)
            &&& !document ==> (smart_temperature(s) matches Some(t) ==> t.source
                != SmartTemperatureSource::JsonTemperatureCurrent && t.source
                != SmartTemperatureSource::JsonAtaSmartAttribute)
            &&& !document && (exists|i: int|
                0 <= i < lines(s).len() && direct_reading(#[trigger] lines(s)[i]) is Some) ==> (
            smart_temperature(s) matches Some(t) && t.source
                != SmartTemperatureSource::TextAttribute)
        }),
{
    lemma_first_direct(lines(s));
}

/// A line that names the current temperature of the drive, or one in Celsius,
/// gives the number after its colon, in any case of its letters and with white
/// space around it.
pub proof fn named_temperatures_are_read(
    before: Seq<char>,
    name: Seq<char>,
    gap: Seq<char>,
    celsius: int,
    unit: Seq<char>,
    after: Seq<char>,
)
    requires
        -40 <= celsius <= 125,
        crate::text::all_space(before),
        crate::text::all_space(after),
        name.len() > 0,
        !crate::text::is_space(name[0]),
        name.last() == ':',
        !name.drop_last().contains(':'),
        crate::text::all_space(gap),
        unit.len() > 0,
        !is_digit(unit[0]),
        !crate::text::is_space(unit.last()),
    ensures
        lowered(name) == "current drive temperature:"@ ==> direct_reading(
            before + (name + gap + decimal_int(celsius) + unit) + after,
        ) == Some(
            DriveTemperature {
                current_celsius: celsius as i32,
                source: SmartTemperatureSource::TextCurrentDriveTemperature,
            },
        ),
        lowered(name) == "temperature:"@ && contains(lowered(unit), "celsius"@) ==> direct_reading(
            before + (name + gap + decimal_int(celsius) + unit) + after,
        ) == Some(
            DriveTemperature {
                current_celsius: celsius as i32,
                source: SmartTemperatureSource::TextNvmeTemperature,
            },
        ),
{
    let text = name + gap + decimal_int(celsius) + unit;
    assert(text[0] == name[0]);
    assert(text.last() == unit.last());
    crate::text::trimming_cuts_space_around(before, text, after);
    let colon = name.len() - 1;
    assert forall|i: int| 0 <= i < colon implies !Class::One(':').holds(#[trigger] text[i]) by {
        assert(name.drop_last().contains(name.drop_last()[i]));
    }
    assert(text[colon] == ':');
    crate::text::seek_finds_first(text, Class::One(':'), 0, colon);
    assert(text.skip(colon + 1) =~= gap + decimal_int(celsius) + unit);
    assert forall|i: int| 0 <= i < gap.len() implies !is_digit(#[trigger] gap[i]) && gap[i]
        != '-' by {
        assert(crate::text::is_space(gap[i]));
    }
    crate::json::first_integer_is_found(gap, celsius, unit);
    let lower = lowered(text);
    assert(lower.take(name.len() as int) =~= lowered(name));
    if lowered(name) == "temperature:"@ && contains(lowered(unit), "celsius"@) {
        reveal_strlit("temperature:");
        reveal_strlit("current drive temperature:");
        assert(!starts_with(lower, "current drive temperature:"@)) by {
            if starts_with(lower, "current drive temperature:"@) {
                assert(lower.take("current drive temperature:"@.len() as int)[0] == lower[0]);
                assert(lower[0] == lowered(name)[0]);
            }
        }
        let at = (name + gap + decimal_int(celsius)).len() as int;
        assert(text.subrange(at, text.len() as int) =~= unit);
        assert(lowered(text.subrange(at, text.len() as int)) == lowered(unit));
        lemma_stretch_contains(text, at, text.len() as int, "celsius"@);
    }
}

/// Of a table of attributes the tenth column counts, and only on lines that name
/// an attribute of a temperature.
pub proof fn attributes_are_read_from_the_tenth_column(
    line: Seq<char>,
    celsius: int,
    rest: Seq<char>,
)
    requires
        crate::text::trimmed(line) == line,
        words(line).len() > 9,
        words(line)[9] == decimal_int(celsius) + rest,
        rest.len() > 0 ==> !is_digit(rest[0]),
        i32::MIN <= celsius <= i32::MAX,
    ensures
        contains(lowered(line), "temperature_celsius"@) || contains(
            lowered(line),
            "temperature_internal"@,
        ) || contains(lowered(line), "airflow_temperature_cel"@) || contains(
            lowered(line),
            "drive_temperature"@,
        ) ==> attribute_reading(line) == if -40 <= celsius <= 125 {
            Some(celsius)
        } else {
            None
        },
        !contains(lowered(line), "temperature"@) ==> attribute_reading(line) is None,
{
    let none = Seq::<char>::empty();
    crate::json::first_integer_is_found(none, celsius, rest);
    assert(none + decimal_int(celsius) + rest =~= decimal_int(celsius) + rest);
    if !contains(lowered(line), "temperature"@) && is_attribute_line(lowered(line)) {
        reveal_strlit("temperature");
        reveal_strlit("temperature_celsius");
        reveal_strlit("temperature_internal");
        reveal_strlit("airflow_temperature_cel");
        reveal_strlit("drive_temperature");
        let lower = lowered(line);
        let (word, offset): (Seq<char>, int) = if contains(lower, "temperature_celsius"@) {
            ("temperature_celsius"@, 0)
        } else if contains(lower, "temperature_internal"@) {
            ("temperature_internal"@, 0)
        } else if contains(lower, "airflow_temperature_cel"@) {
            ("airflow_temperature_cel"@, 8)
        } else {
            ("drive_temperature"@, 6)
        };
        assert(word.subrange(offset, offset + 11) =~= "temperature"@);
        let at = choose|at: int| occurs_at(lower, word, at);
        assert(lower.subrange(at + offset, at + offset + 11) =~= lower.subrange(
            at,
            at + word.len(),
        ).subrange(offset, offset + 11));
        assert(occurs_at(lower, "temperature"@, at + offset));
    }
}

/// The temperature of an attribute in a document stands in its raw value: in its
/// text, or else in its number. An attribute of another name has none. The
/// attribute is the object that the nearest brace before its name opens.
pub proof fn attributes_are_read_by_name(
    s: Seq<char>,
    at: int,
    start: int,
    name: Seq<char>,
    object: Seq<char>,
    raw: Seq<char>,
)
    requires
        0 <= start < at <= s.len(),
        s[start] == '{',
        forall|i: int| start < i < at ==> #[trigger] s[i] != '{',
        string_after(s, "name"@, at) == Some(name),
        object_at(s, start) == Some(object),
        object_after(object, "raw"@, 0) == Some(raw),
    ensures
        ({
            let known = name == "Temperature_Celsius"@ || name == "Temperature_Internal"@ || name
                == "Airflow_Temperature_Cel"@ || name == "Drive_Temperature"@;
            let in_text = string_after(raw, "string"@, 0) matches Some(text) && first_int(
                text,
            ) matches Some(n) && -40 <= n <= 125;
            &&& !known ==> attribute_at(s, at) is None
            &&& known && in_text ==> attribute_at(s, at) == first_int(
                string_after(raw, "string"@, 0)->0,
            )
            &&& known && !in_text ==> (int_after(raw, "value"@, 0) matches Some(n) ==> (-40 <= n
                <= 125 ==> attribute_at(s, at) == Some(n)))
            &&& known && !in_text && !(int_after(raw, "value"@, 0) matches Some(n) && -40 <= n
                <= 125) ==> attribute_at(s, at) is None
        }),
{
    lemma_last_before(s, '{', at, start);
}

proof fn lemma_last_before(s: Seq<char>, c: char, end: int, at: int)
    requires
        0 <= at < end <= s.len(),
        s[at] == c,
        forall|i: int| at < i < end ==> #[trigger] s[i] != c,
    ensures
        last_before(s, c, end) == Some(at),
    decreases end,
{
    if at < end - 1 {
        assert(s[end - 1] != c);
        lemma_last_before(s, c, end - 1, at);
    }
}

/// Why there is no temperature is said by the first line of the error stream that
/// is not blank, without the white space around it; where there is none, by the
/// message in the document; and where there is none of that either, in words of
/// its own.
pub proof fn failures_say_why(
    stdout: Seq<char>,
    stderr: Seq<char>,
    status: Option<i32>,
    detail: String,
    i: int,
)
    requires
        classified(
            stdout,
            stderr,
            status,
            Err(SmartctlError::NoTemperature { status, detail }),
        ),
    ensures
        0 <= i < lines(stderr).len() && trimmed(lines(stderr)[i]).len() > 0 && (forall|k: int|
            0 <= k < i ==> trimmed(#[trigger] lines(stderr)[k]).len() == 0) ==> detail@ == trimmed(
            lines(stderr)[i],
        ),
        (forall|k: int|
            0 <= k < lines(stderr).len() ==> trimmed(#[trigger] lines(stderr)[k]).len() == 0) ==> {
            &&& (object_after(stdout, "smartctl"@, 0) matches Some(part) && (string_after(
                part,
                "string"@,
                0,
            ) matches Some(message) && detail@ == message)) || detail@
                == "temperature field missing from SMART output"@
            &&& (object_after(stdout, "smartctl"@, 0) matches Some(part) && string_after(
                part,
                "string"@,
                0,
            ) is Some) ==> detail@ == string_after(
                object_after(stdout, "smartctl"@, 0)->0,
                "string"@,
                0,
            )->0
        },
{
    lemma_first_nonempty(lines(stderr), i);
}

proof fn lemma_first_nonempty(rows: Seq<Seq<char>>, i: int)
    ensures
        0 <= i < rows.len() && trimmed(rows[i]).len() > 0 && (forall|k: int|
            0 <= k < i ==> trimmed(#[trigger] rows[k]).len() == 0) ==> first_nonempty(rows) == Some(
            trimmed(rows[i]),
        ),
        (forall|k: int| 0 <= k < rows.len() ==> trimmed(#[trigger] rows[k]).len() == 0)
            ==> first_nonempty(rows) is None,
    decreases rows.len(),
{
    if rows.len() > 0 {
        let rest = rows.drop_first();
        assert(forall|k: int| 0 <= k < rest.len() ==> rest[k] == rows[k + 1]);
        lemma_first_nonempty(rest, i - 1);
        if 0 < i < rows.len() && trimmed(rows[i]).len() > 0 && (forall|k: int|
            0 <= k < i ==> trimmed(#[trigger] rows[k]).len() == 0) {
            assert(trimmed(rows[0]).len() == 0);
            assert forall|k: int| 0 <= k < i - 1 implies trimmed(#[trigger] rest[k]).len() == 0 by {
                assert(rest[k] == rows[k + 1]);
            }
            assert(rest[i - 1] == rows[i]);
        }
        if forall|k: int| 0 <= k < rows.len() ==> trimmed(#[trigger] rows[k]).len() == 0 {
            assert(trimmed(rows[0]).len() == 0);
            assert forall|k: int| 0 <= k < rest.len() implies trimmed(#[trigger] rest[k]).len()
                == 0 by {
                assert(rest[k] == rows[k + 1]);
            }
        }
    }
}

/// Where a document names no current temperature that can be one, its attributes
/// count, and the hottest of them; and where no line of another text gives a
/// temperature outright, the hottest of its table does.
pub proof fn attributes_count_without_a_current_temperature(s: Seq<char>)
    ensures
        ({
            let body = trimmed_start(s);
            let document = body.len() > 0 && body[0] == '{';
            let current = object_after(body, "temperature"@, 0) matches Some(object) && (int_after(
                object,
                "current"@,
                0,
            ) matches Some(n) && -40 <= n <= 125);
            let direct = exists|i: int|
                0 <= i < lines(s).len() && direct_reading(#[trigger] lines(s)[i]) is Some;
            &&& document && !current ==> match hottest_attribute(body, 0) {
                Some(n) => smart_temperature(s) == Some(
                    DriveTemperature {
                        current_celsius: n as i32,
                        source: SmartTemperatureSource::JsonAtaSmartAttribute,
                    },
                ),
                None => smart_temperature(s) is None,
            }
            &&& !document && !direct ==> match hottest_row(lines(s)) {
                Some(n) => smart_temperature(s) == Some(
                    DriveTemperature {
                        current_celsius: n as i32,
                        source: SmartTemperatureSource::TextAttribute,
                    },
                ),
                None => smart_temperature(s) is None,
            }
        }),
{
    lemma_first_direct(lines(s));
}

/// The first line that gives a temperature outright counts, whatever the lines
/// after it say.
pub proof fn first_outright_line_counts(s: Seq<char>, i: int)
    requires
        trimmed_start(s).len() > 0 ==> trimmed_start(s)[0] != '{',
        0 <= i < lines(s).len(),
        direct_reading(lines(s)[i]) is Some,
        forall|k: int| 0 <= k < i ==> direct_reading(#[trigger] lines(s)[k]) is None,
    ensures
        smart_temperature(s) == direct_reading(lines(s)[i]),
{
    lemma_first_direct(lines(s));
    let t = first_direct(lines(s))->0;
    let k = choose|k: int|
        #![trigger lines(s)[k]]
        0 <= k < lines(s).len() && direct_reading(lines(s)[k]) == Some(t) && forall|m: int|
            0 <= m < k ==> direct_reading(#[trigger] lines(s)[m]) is None;
    if k < i {
        assert(direct_reading(lines(s)[k]) is None);
    } else if i < k {
        assert(direct_reading(lines(s)[i]) is None);
    }
}

/// No other line gives a temperature: it has to start with one of the two names,
/// the one in Celsius has to say so, and the number has to be one of a drive. A
/// line of a table has to name one of the four attributes.
pub proof fn other_lines_give_no_temperature(line: Seq<char>)
    ensures
        ({
            let text = lowered(trimmed(line));
            let current = starts_with(text, "current drive temperature:"@);
            let celsius = starts_with(text, "temperature:"@) && contains(text, "celsius"@);
            &&& !current && !celsius ==> direct_reading(line) is None
            &&& direct_reading(line) matches Some(t) ==> -40 <= t.current_celsius <= 125 && (t.source
                == if current {
                SmartTemperatureSource::TextCurrentDriveTemperature
            } else {
                SmartTemperatureSource::TextNvmeTemperature
            })
            &&& attribute_reading(line) matches Some(n) ==> -40 <= n <= 125 && (contains(
                text,
                "temperature_celsius"@,
            ) || contains(text, "temperature_internal"@) || contains(
                text,
                "airflow_temperature_cel"@,
            ) || contains(text, "drive_temperature"@)) && words(trimmed(line)).len() > 9
        }),
{
}

/// The text of an error says what went wrong: how long was waited, in seconds where
/// that is a whole number; why a process could not be run; or the exit status and
/// what the output says.
pub proof fn errors_say_what_went_wrong(seconds: u64, milliseconds: u64, code: i32, reason: String)
    ensures
        seconds * 1000 <= u64::MAX ==> error_text(
            SmartctlError::Timeout { milliseconds: (seconds * 1000) as u64 },
        ) == "smartctl timed out after "@ + decimal(seconds as nat) + " seconds"@,
        milliseconds % 1000 != 0 ==> error_text(SmartctlError::Timeout { milliseconds })
            == "smartctl timed out after "@ + decimal(milliseconds as nat) + " milliseconds"@,
        error_text(SmartctlError::Spawn(reason)) == "failed to run smartctl: "@ + reason@,
        error_text(SmartctlError::Wait(reason)) == "failed while waiting for smartctl: "@ + reason@,
        error_text(SmartctlError::NoTemperature { status: Some(code), detail: reason })
            == "smartctl returned no temperature (exit status "@ + decimal_int(code as int) + "): "@
            + reason@,
        error_text(SmartctlError::NoTemperature { status: None, detail: reason })
            == "smartctl returned no temperature: "@ + reason@,
        error_text(SmartctlError::BatchTimeout)
            == "SMART batch deadline reached before device poll"@,
{
}

} // verus!
