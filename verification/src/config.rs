//! The settings of the daemon.

use vstd::prelude::*;
use vstd::string::*;

use crate::binary64::{lemma_encodings_ordered, Binary64};
use crate::ini::{get, parse_ini, setting_views, settings_in, value_of, Setting, SettingView};
use crate::number::{decimal, parse_unsigned, push_decimal, unsigned};
use crate::order::{before, comes_before, lemma_before_total, lemma_before_transitive};
use crate::quote::{quote, quoted};
use crate::reader::{is_reader, number_in, read};
use crate::split::{csv, split_csv, views};
use crate::text::{chars_of, is_text, lower_text, lowered, same_str, string_of, trim, trimmed};

verus! {

/// Four temperatures, in degrees Celsius, at which the fan does more.
#[derive(Debug, Clone, Copy, PartialEq, Eq)]
pub struct FanConfig {
    pub lv0: Binary64,
    pub lv1: Binary64,
    pub lv2: Binary64,
    pub lv3: Binary64,
}

impl FanConfig {
    /// Whether the temperatures are finite and each is above the one before.
    pub open spec fn ascending(self) -> bool {
        &&& self.lv0.is_finite() && self.lv1.is_finite() && self.lv2.is_finite()
            && self.lv3.is_finite()
        &&& self.lv0.less(self.lv1) && self.lv1.less(self.lv2) && self.lv2.less(self.lv3)
    }
}

/// What a fan curve does above its last point.
#[derive(Debug, Clone, Copy, PartialEq, Eq, Structural)]
pub enum FanCurveTail {
    /// Stays at the last duty.
    Hold,
    /// Rises as between the last two points.
    Extrapolate,
}

/// A fan curve through four points, with a hard maximum and the rules for
/// falling duties. Duties are percentages.
#[derive(Debug, Clone, Copy, PartialEq, Eq, Structural)]
pub struct FanCurveConfig {
    pub enabled: bool,
    pub duty0: u8,
    pub duty1: u8,
    pub duty2: u8,
    pub duty3: u8,
    pub tail: FanCurveTail,
    pub max_duty: u8,
    /// The fall of the duty, in percentage points, that is not followed.
    pub hysteresis: u8,
    /// The most that the duty falls in a second, in percentage points; no limit
    /// where it is zero.
    pub ramp_down: u8,
}

impl FanCurveConfig {
    /// Whether no duty is below the one before.
    pub open spec fn nondecreasing(self) -> bool {
        self.duty0 <= self.duty1 && self.duty1 <= self.duty2 && self.duty2 <= self.duty3
    }

    /// Whether all duties and percentages are at most a hundred.
    pub open spec fn in_percent(self) -> bool {
        self.duty0 <= 100 && self.duty1 <= 100 && self.duty2 <= 100 && self.duty3 <= 100
            && self.max_duty <= 100 && self.hysteresis <= 100 && self.ramp_down <= 100
    }

    /// The most that the fan may do.
    pub open spec fn ceiling(self) -> u8 {
        if self.enabled {
            self.max_duty
        } else {
            100
        }
    }

    /// Gives the most that the fan may do.
    pub fn maximum_duty(&self) -> (r: u8)
        ensures
            r == self.ceiling(),
    {
        if self.enabled {
            self.max_duty
        } else {
            100
        }
    }
}

/// Which drives count for the fan, and how.
#[derive(Debug, Clone, PartialEq, Eq)]
pub struct FanDrivesConfig {
    pub enabled: bool,
    pub devices: Vec<String>,
    pub thresholds: FanConfig,
    pub poll_seconds: u64,
}

/// What the button does.
#[derive(Debug, Clone, PartialEq, Eq)]
pub struct KeyConfig {
    pub click: String,
    pub twice: String,
    pub press: String,
}

/// How long a double click and a long press take, in seconds.
#[derive(Debug, Clone, Copy, PartialEq, Eq)]
pub struct TimeConfig {
    pub twice: Binary64,
    pub press: Binary64,
}

/// How the display is used; times are in seconds.
#[derive(Debug, Clone, Copy, PartialEq, Eq)]
pub struct OledConfig {
    pub rotate: bool,
    pub f_temp: bool,
    pub auto_slide: bool,
    pub auto_slide_time: Binary64,
    pub sleep: Binary64,
}

/// All settings of the daemon.
#[derive(Debug, Clone, PartialEq, Eq)]
pub struct Config {
    pub fan: FanConfig,
    pub fan_curve: FanCurveConfig,
    pub fan_drives: FanDrivesConfig,
    pub key: KeyConfig,
    pub time: TimeConfig,
    pub oled: OledConfig,
    pub disks: Vec<String>,
}

/// Settings of the drives as mathematical data.
pub struct FanDrivesView {
    pub enabled: bool,
    pub devices: Seq<Seq<char>>,
    pub thresholds: FanConfig,
    pub poll_seconds: u64,
}

/// Settings of the button as mathematical data.
pub struct KeyView {
    pub click: Seq<char>,
    pub twice: Seq<char>,
    pub press: Seq<char>,
}

/// All settings as mathematical data.
pub struct ConfigView {
    pub fan: FanConfig,
    pub fan_curve: FanCurveConfig,
    pub fan_drives: FanDrivesView,
    pub key: KeyView,
    pub time: TimeConfig,
    pub oled: OledConfig,
    pub disks: Seq<Seq<char>>,
}

impl View for FanDrivesConfig {
    type V = FanDrivesView;

    open spec fn view(&self) -> FanDrivesView {
        FanDrivesView {
            enabled: self.enabled,
            devices: views(self.devices@),
            thresholds: self.thresholds,
            poll_seconds: self.poll_seconds,
        }
    }
}

impl View for KeyConfig {
    type V = KeyView;

    open spec fn view(&self) -> KeyView {
        KeyView { click: self.click@, twice: self.twice@, press: self.press@ }
    }
}

impl View for Config {
    type V = ConfigView;

    open spec fn view(&self) -> ConfigView {
        ConfigView {
            fan: self.fan,
            fan_curve: self.fan_curve,
            fan_drives: self.fan_drives@,
            key: self.key@,
            time: self.time,
            oled: self.oled,
            disks: views(self.disks@),
        }
    }
}

impl ConfigView {
    /// Whether the settings can be worked with: temperatures rise, duties do
    /// not fall and are percentages, and drives are not read without a pause.
    pub open spec fn valid(self) -> bool {
        &&& self.fan.ascending()
        &&& self.fan_drives.thresholds.ascending()
        &&& self.fan_curve.nondecreasing()
        &&& self.fan_curve.in_percent()
        &&& self.fan_drives.poll_seconds > 0
    }
}

/// 35, 40, 45 and 50 degrees.
pub open spec fn default_fan() -> FanConfig {
    FanConfig {
        lv0: Binary64 { bits: 0x4041_8000_0000_0000 },
        lv1: Binary64 { bits: 0x4044_0000_0000_0000 },
        lv2: Binary64 { bits: 0x4046_8000_0000_0000 },
        lv3: Binary64 { bits: 0x4049_0000_0000_0000 },
    }
}

/// 45, 50, 55 and 60 degrees.
pub open spec fn default_drive_thresholds() -> FanConfig {
    FanConfig {
        lv0: Binary64 { bits: 0x4046_8000_0000_0000 },
        lv1: Binary64 { bits: 0x4049_0000_0000_0000 },
        lv2: Binary64 { bits: 0x404b_8000_0000_0000 },
        lv3: Binary64 { bits: 0x404e_0000_0000_0000 },
    }
}

/// Steps of a quarter each.
pub open spec fn default_fan_curve() -> FanCurveConfig {
    FanCurveConfig {
        enabled: false,
        duty0: 25,
        duty1: 50,
        duty2: 75,
        duty3: 100,
        tail: FanCurveTail::Extrapolate,
        max_duty: 100,
        hysteresis: 1,
        ramp_down: 0,
    }
}

/// No drive counts.
pub open spec fn default_fan_drives() -> FanDrivesView {
    FanDrivesView {
        enabled: false,
        devices: Seq::empty(),
        thresholds: default_drive_thresholds(),
        poll_seconds: 30,
    }
}

/// A click slides, two clicks switch the fan, a long press does nothing.
pub open spec fn default_key() -> KeyView {
    KeyView { click: "slider"@, twice: "switch"@, press: "none"@ }
}

/// 0.7 and 1.8 seconds.
pub open spec fn default_time() -> TimeConfig {
    TimeConfig {
        twice: Binary64 { bits: 0x3fe6_6666_6666_6666 },
        press: Binary64 { bits: 0x3ffc_cccc_cccc_cccd },
    }
}

/// The display slides every 10 seconds and never sleeps.
pub open spec fn default_oled() -> OledConfig {
    OledConfig {
        rotate: false,
        f_temp: false,
        auto_slide: true,
        auto_slide_time: Binary64 { bits: 0x4024_0000_0000_0000 },
        sleep: Binary64 { bits: 0 },
    }
}

/// The settings where none are given.
pub open spec fn default_config() -> ConfigView {
    ConfigView {
        fan: default_fan(),
        fan_curve: default_fan_curve(),
        fan_drives: default_fan_drives(),
        key: default_key(),
        time: default_time(),
        oled: default_oled(),
        disks: Seq::empty(),
    }
}

/// The settings where none are given can be worked with.
pub proof fn defaults_are_valid()
    ensures
        default_config().valid(),
{
    let fan = default_fan();
    lemma_encodings_ordered(fan.lv0, fan.lv1);
    lemma_encodings_ordered(fan.lv1, fan.lv2);
    lemma_encodings_ordered(fan.lv2, fan.lv3);
    let drives = default_drive_thresholds();
    lemma_encodings_ordered(drives.lv0, drives.lv1);
    lemma_encodings_ordered(drives.lv1, drives.lv2);
    lemma_encodings_ordered(drives.lv2, drives.lv3);
}

impl Default for FanConfig {
    fn default() -> (r: Self)
        ensures
            r == default_fan(),
    {
        FanConfig {
            lv0: Binary64 { bits: 0x4041_8000_0000_0000 },
            lv1: Binary64 { bits: 0x4044_0000_0000_0000 },
            lv2: Binary64 { bits: 0x4046_8000_0000_0000 },
            lv3: Binary64 { bits: 0x4049_0000_0000_0000 },
        }
    }
}

impl Default for FanCurveConfig {
    fn default() -> (r: Self)
        ensures
            r == default_fan_curve(),
    {
        FanCurveConfig {
            enabled: false,
            duty0: 25,
            duty1: 50,
            duty2: 75,
            duty3: 100,
            tail: FanCurveTail::Extrapolate,
            max_duty: 100,
            hysteresis: 1,
            ramp_down: 0,
        }
    }
}

impl Default for FanDrivesConfig {
    fn default() -> (r: Self)
        ensures
            r@ == default_fan_drives(),
    {
        let r = FanDrivesConfig {
            enabled: false,
            devices: Vec::new(),
            thresholds: FanConfig {
                lv0: Binary64 { bits: 0x4046_8000_0000_0000 },
                lv1: Binary64 { bits: 0x4049_0000_0000_0000 },
                lv2: Binary64 { bits: 0x404b_8000_0000_0000 },
                lv3: Binary64 { bits: 0x404e_0000_0000_0000 },
            },
            poll_seconds: 30,
        };
        assert(views(r.devices@) == Seq::<Seq<char>>::empty());
        r
    }
}

impl Default for KeyConfig {
    fn default() -> (r: Self)
        ensures
            r@ == default_key(),
    {
        KeyConfig {
            click: "slider".to_owned(),
            twice: "switch".to_owned(),
            press: "none".to_owned(),
        }
    }
}

impl Default for TimeConfig {
    fn default() -> (r: Self)
        ensures
            r == default_time(),
    {
        TimeConfig {
            twice: Binary64 { bits: 0x3fe6_6666_6666_6666 },
            press: Binary64 { bits: 0x3ffc_cccc_cccc_cccd },
        }
    }
}

impl Default for OledConfig {
    fn default() -> (r: Self)
        ensures
            r == default_oled(),
    {
        OledConfig {
            rotate: false,
            f_temp: false,
            auto_slide: true,
            auto_slide_time: Binary64 { bits: 0x4024_0000_0000_0000 },
            sleep: Binary64 { bits: 0 },
        }
    }
}

impl Default for Config {
    fn default() -> (r: Self)
        ensures
            r@ == default_config(),
    {
        let r = Config {
            fan: FanConfig::default(),
            fan_curve: FanCurveConfig::default(),
            fan_drives: FanDrivesConfig::default(),
            key: KeyConfig::default(),
            time: TimeConfig::default(),
            oled: OledConfig::default(),
            disks: Vec::new(),
        };
        assert(views(r.disks@) == Seq::<Seq<char>>::empty());
        r
    }
}

/// Why the settings could not be read.
#[derive(Debug, Clone, PartialEq, Eq)]
pub enum ConfigError {
    /// The file could not be read.
    Io(String),
    /// A line is neither a section nor a setting.
    Parse { line: usize, message: String },
    /// A value is not of the kind that its key takes.
    Value { key: String, value: String, expected: &'static str },
    /// The temperatures of a section do not rise.
    Thresholds { section: &'static str },
    /// The duties of the fan curve fall.
    FanCurveDuties,
    /// A section has a key that it does not take.
    UnknownKey { section: &'static str, key: String },
}

/// An error as mathematical data.
pub enum ErrorView {
    Io(Seq<char>),
    Parse { line: int, message: Seq<char> },
    Value { key: Seq<char>, value: Seq<char>, expected: Seq<char> },
    Thresholds { section: Seq<char> },
    FanCurveDuties,
    UnknownKey { section: Seq<char>, key: Seq<char> },
}

impl View for ConfigError {
    type V = ErrorView;

    open spec fn view(&self) -> ErrorView {
        match *self {
            ConfigError::Io(error) => ErrorView::Io(error@),
            ConfigError::Parse { line, message } => ErrorView::Parse {
                line: line as int,
                message: message@,
            },
            ConfigError::Value { key, value, expected } => ErrorView::Value {
                key: key@,
                value: value@,
                expected: expected@,
            },
            ConfigError::Thresholds { section } => ErrorView::Thresholds { section: section@ },
            ConfigError::FanCurveDuties => ErrorView::FanCurveDuties,
            ConfigError::UnknownKey { section, key } => ErrorView::UnknownKey {
                section: section@,
                key: key@,
            },
        }
    }
}

/// The text of an error.
pub open spec fn config_error_text(error: ErrorView) -> Seq<char> {
    match error {
        ErrorView::Io(error) => "config I/O error: "@ + error,
        ErrorView::Parse { line, message } => "config parse error on line "@ + decimal(line as nat)
            + ": "@ + message,
        ErrorView::Value { key, value, expected } => "invalid config value for "@ + key + ": "@
            + quoted(value) + ", expected "@ + expected,
        ErrorView::Thresholds { section } => "invalid ["@ + section
            + "] thresholds: lv0 through lv3 must be finite and strictly ascending"@,
        ErrorView::FanCurveDuties =>
            "invalid [fan_curve] duties: duty0 through duty3 must be nondecreasing"@,
        ErrorView::UnknownKey { section, key } => "unknown key "@ + quoted(key) + " in ["@ + section
            + "]"@,
    }
}

impl ConfigError {
    /// Gives the text of the error.
    pub fn message(&self) -> (r: String)
        ensures
            r@ == config_error_text(self@),
    {
        match self {
            ConfigError::Io(error) => {
                let mut out = "config I/O error: ".to_owned();
                out.append(error.as_str());
                out
            },
            ConfigError::Parse { line, message } => {
                let mut out = "config parse error on line ".to_owned();
                push_decimal(&mut out, *line as u64);
                out.append(": ");
                out.append(message.as_str());
                out
            },
            ConfigError::Value { key, value, expected } => {
                let mut out = "invalid config value for ".to_owned();
                out.append(key.as_str());
                out.append(": ");
                out.append(quote(value.as_str()).as_str());
                out.append(", expected ");
                out.append(expected);
                out
            },
            ConfigError::Thresholds { section } => {
                let mut out = "invalid [".to_owned();
                out.append(section);
                out.append("] thresholds: lv0 through lv3 must be finite and strictly ascending");
                out
            },
            ConfigError::FanCurveDuties => {
                "invalid [fan_curve] duties: duty0 through duty3 must be nondecreasing".to_owned()
            },
            ConfigError::UnknownKey { section, key } => {
                let mut out = "unknown key ".to_owned();
                out.append(quote(key.as_str()).as_str());
                out.append(" in [");
                out.append(section);
                out.append("]");
                out
            },
        }
    }
}

/// The error of a value that is not what was expected.
pub open spec fn wrong_value(key: Seq<char>, value: Seq<char>, expected: Seq<char>) -> Option<
    ErrorView,
> {
    Some(ErrorView::Value { key, value, expected })
}

/// The value of a setting and the error in it, if any, where `read` says what a
/// text means. What is not set is as by default.
pub open spec fn with_default<T>(
    text: Option<Seq<char>>,
    key: Seq<char>,
    default: T,
    read: spec_fn(Seq<char>) -> Option<T>,
    expected: Seq<char>,
) -> (T, Option<ErrorView>) {
    match text {
        None => (default, None),
        Some(text) => match read(text) {
            Some(value) => (value, None),
            None => (default, wrong_value(key, text, expected)),
        },
    }
}

/// Whether a result is the value or the error of a setting.
pub open spec fn settles<T>(r: Result<T, ConfigError>, setting: (T, Option<ErrorView>)) -> bool {
    match r {
        Ok(value) => setting == (value, None::<ErrorView>),
        Err(error) => setting.1 == Some(error@),
    }
}

/// The words for yes and no, in any case.
pub open spec fn bool_in(text: Seq<char>) -> Option<bool> {
    let word = lowered(trimmed(text));
    if word == "true"@ || word == "yes"@ || word == "on"@ || word == "1"@ {
        Some(true)
    } else if word == "false"@ || word == "no"@ || word == "off"@ || word == "0"@ {
        Some(false)
    } else {
        None
    }
}

/// A positive number of 64 bits.
pub open spec fn positive_in(text: Seq<char>) -> Option<u64> {
    match unsigned(text, u64::MAX as int) {
        Some(n) => if n > 0 {
            Some(n as u64)
        } else {
            None
        },
        None => None,
    }
}

/// A whole number of at most a hundred.
pub open spec fn percent_in(text: Seq<char>) -> Option<u8> {
    match unsigned(text, 100) {
        Some(n) => Some(n as u8),
        None => None,
    }
}

/// The words for the tail of a curve, in any case.
pub open spec fn tail_in(text: Seq<char>) -> Option<FanCurveTail> {
    let word = lowered(trimmed(text));
    if word == "hold"@ {
        Some(FanCurveTail::Hold)
    } else if word == "extrapolate"@ {
        Some(FanCurveTail::Extrapolate)
    } else {
        None
    }
}

/// A setting that is a number.
pub open spec fn number_setting<F: Fn(&str) -> Option<Binary64>>(
    read: F,
    settings: Seq<SettingView>,
    section: Seq<char>,
    key: Seq<char>,
    default: Binary64,
) -> (Binary64, Option<ErrorView>) {
    with_default(
        value_of(settings, section, key),
        key,
        default,
        |text: Seq<char>| number_in(read, text),
        "number"@,
    )
}

/// A setting that is yes or no.
pub open spec fn bool_setting(
    settings: Seq<SettingView>,
    section: Seq<char>,
    key: Seq<char>,
    default: bool,
) -> (bool, Option<ErrorView>) {
    with_default(
        value_of(settings, section, key),
        key,
        default,
        |text: Seq<char>| bool_in(text),
        "boolean"@,
    )
}

/// A setting that is a positive number.
pub open spec fn positive_setting(
    settings: Seq<SettingView>,
    section: Seq<char>,
    key: Seq<char>,
    default: u64,
) -> (u64, Option<ErrorView>) {
    with_default(
        value_of(settings, section, key),
        key,
        default,
        |text: Seq<char>| positive_in(text),
        "positive integer"@,
    )
}

/// A setting that is a percentage.
pub open spec fn percent_setting(
    settings: Seq<SettingView>,
    section: Seq<char>,
    key: Seq<char>,
    default: u8,
) -> (u8, Option<ErrorView>) {
    with_default(
        value_of(settings, section, key),
        key,
        default,
        |text: Seq<char>| percent_in(text),
        "integer in 0..=100"@,
    )
}

/// A setting that is the tail of a curve.
pub open spec fn tail_setting(
    settings: Seq<SettingView>,
    section: Seq<char>,
    key: Seq<char>,
    default: FanCurveTail,
) -> (FanCurveTail, Option<ErrorView>) {
    with_default(
        value_of(settings, section, key),
        key,
        default,
        |text: Seq<char>| tail_in(text),
        "hold or extrapolate"@,
    )
}

/// A setting that is a text; one that is empty counts as not set.
pub open spec fn text_setting(
    settings: Seq<SettingView>,
    section: Seq<char>,
    key: Seq<char>,
    default: Seq<char>,
) -> Seq<char> {
    match value_of(settings, section, key) {
        Some(text) => if trimmed(text).len() > 0 {
            trimmed(text)
        } else {
            default
        },
        None => default,
    }
}

/// A setting that is a list.
pub open spec fn list_setting(settings: Seq<SettingView>, section: Seq<char>, key: Seq<char>) -> Seq<
    Seq<char>,
> {
    match value_of(settings, section, key) {
        Some(text) => csv(text),
        None => Seq::empty(),
    }
}

fn value_error(key: &str, value: &String, expected: &'static str) -> (r: ConfigError)
    ensures
        Some(r@) == wrong_value(key@, value@, expected@),
{
    ConfigError::Value { key: key.to_owned(), value: value.clone(), expected }
}

/// Reads a number.
pub fn parse_f64<F: Fn(&str) -> Option<Binary64>>(
    read_number: &F,
    settings: &Vec<Setting>,
    section: &str,
    key: &str,
    default: Binary64,
) -> (r: Result<Binary64, ConfigError>)
    requires
        is_reader(*read_number),
    ensures
        settles(r, number_setting(*read_number, setting_views(settings@), section@, key@, default)),
{
    match get(settings, section, key) {
        None => Ok(default),
        Some(value) => {
            match read(read_number, value.as_str()) {
                Some(number) => Ok(number),
                None => Err(value_error(key, value, "number")),
            }
        },
    }
}

/// Reads a yes or no.
pub fn parse_bool(settings: &Vec<Setting>, section: &str, key: &str, default: bool) -> (r: Result<
    bool,
    ConfigError,
>)
    ensures
        settles(r, bool_setting(setting_views(settings@), section@, key@, default)),
{
    match get(settings, section, key) {
        None => Ok(default),
        Some(value) => {
            let chars = chars_of(value.as_str());
            let word = lower_text(trim(&chars));
            if is_text(&word, "true") || is_text(&word, "yes") || is_text(&word, "on") || is_text(
                &word,
                "1",
            ) {
                Ok(true)
            } else if is_text(&word, "false") || is_text(&word, "no") || is_text(&word, "off")
                || is_text(&word, "0") {
                Ok(false)
            } else {
                Err(value_error(key, value, "boolean"))
            }
        },
    }
}

/// Reads a positive number.
pub fn parse_positive_u64(settings: &Vec<Setting>, section: &str, key: &str, default: u64) -> (r:
    Result<u64, ConfigError>)
    ensures
        settles(r, positive_setting(setting_views(settings@), section@, key@, default)),
{
    match get(settings, section, key) {
        None => Ok(default),
        Some(value) => {
            let chars = chars_of(value.as_str());
            match parse_unsigned(&chars, u64::MAX) {
                Some(n) => if n > 0 {
                    Ok(n)
                } else {
                    Err(value_error(key, value, "positive integer"))
                },
                None => Err(value_error(key, value, "positive integer")),
            }
        },
    }
}

/// Reads a percentage.
pub fn parse_percent(settings: &Vec<Setting>, section: &str, key: &str, default: u8) -> (r: Result<
    u8,
    ConfigError,
>)
    ensures
        settles(r, percent_setting(setting_views(settings@), section@, key@, default)),
{
    match get(settings, section, key) {
        None => Ok(default),
        Some(value) => {
            let chars = chars_of(value.as_str());
            match parse_unsigned(&chars, 100) {
                Some(n) => Ok(n as u8),
                None => Err(value_error(key, value, "integer in 0..=100")),
            }
        },
    }
}

/// Reads the tail of a curve.
pub fn parse_fan_curve_tail(
    settings: &Vec<Setting>,
    section: &str,
    key: &str,
    default: FanCurveTail,
) -> (r: Result<FanCurveTail, ConfigError>)
    ensures
        settles(r, tail_setting(setting_views(settings@), section@, key@, default)),
{
    match get(settings, section, key) {
        None => Ok(default),
        Some(value) => {
            let chars = chars_of(value.as_str());
            let word = lower_text(trim(&chars));
            if is_text(&word, "hold") {
                Ok(FanCurveTail::Hold)
            } else if is_text(&word, "extrapolate") {
                Ok(FanCurveTail::Extrapolate)
            } else {
                Err(value_error(key, value, "hold or extrapolate"))
            }
        },
    }
}

/// Reads a text.
pub fn get_string(settings: &Vec<Setting>, section: &str, key: &str, default: &str) -> (r: String)
    ensures
        r@ == text_setting(setting_views(settings@), section@, key@, default@),
{
    if let Some(value) = get(settings, section, key) {
        let chars = chars_of(value.as_str());
        let text = trim(&chars);
        if text.len() > 0 {
            return string_of(text);
        }
    }
    default.to_owned()
}

/// Reads a list.
pub fn get_list(settings: &Vec<Setting>, section: &str, key: &str) -> (r: Vec<String>)
    ensures
        views(r@) == list_setting(setting_views(settings@), section@, key@),
{
    match get(settings, section, key) {
        Some(value) => split_csv(value.as_str()),
        None => {
            let none: Vec<String> = Vec::new();
            assert(views(none@) == Seq::<Seq<char>>::empty());
            none
        },
    }
}

/// The keys that the section of the fan curve takes.
pub open spec fn is_curve_key(key: Seq<char>) -> bool {
    key == "enabled"@ || key == "duty0"@ || key == "duty1"@ || key == "duty2"@ || key == "duty3"@
        || key == "tail"@ || key == "max_duty"@ || key == "hysteresis"@ || key == "ramp_down"@
}

/// Whether a setting stands in the section of the fan curve with a key that it
/// does not take.
pub open spec fn is_stray(setting: SettingView) -> bool {
    setting.section == "fan_curve"@ && !is_curve_key(setting.key)
}

/// The first in order of the keys in the section of the fan curve that it does
/// not take.
pub open spec fn stray_key(settings: Seq<SettingView>) -> Option<Seq<char>>
    decreases settings.len(),
{
    if settings.len() == 0 {
        None
    } else {
        let last = settings.last();
        let earlier = stray_key(settings.drop_last());
        if !is_stray(last) {
            earlier
        } else {
            match earlier {
                Some(key) => if before(last.key, key) {
                    Some(last.key)
                } else {
                    Some(key)
                },
                None => Some(last.key),
            }
        }
    }
}

/// The key that is reported is one that the section does not take, none that it
/// does not take stands before it, and one is reported wherever there is one.
pub proof fn stray_key_is_first(settings: Seq<SettingView>)
    ensures
        match stray_key(settings) {
            Some(key) => {
                &&& exists|i: int|
                    0 <= i < settings.len() && is_stray(#[trigger] settings[i]) && settings[i].key
                        == key
                &&& forall|i: int|
                    0 <= i < settings.len() && is_stray(#[trigger] settings[i]) ==> !before(
                        settings[i].key,
                        key,
                    )
            },
            None => forall|i: int| 0 <= i < settings.len() ==> !is_stray(#[trigger] settings[i]),
        },
    decreases settings.len(),
{
    if settings.len() > 0 {
        let rest = settings.drop_last();
        let last = settings.last();
        stray_key_is_first(rest);
        assert(forall|i: int| 0 <= i < rest.len() ==> rest[i] == settings[i]);
        if is_stray(last) {
            assert(settings[settings.len() - 1] == last);
            let key = stray_key(settings)->0;
            assert forall|i: int|
                0 <= i < settings.len() && is_stray(#[trigger] settings[i]) implies !before(
                settings[i].key,
                key,
            ) by {
                let own = settings[i].key;
                lemma_before_total(own, key);
                lemma_before_total(last.key, last.key);
                if i < rest.len() {
                    assert(is_stray(rest[i]));
                    let earlier = stray_key(rest)->0;
                    assert(!before(rest[i].key, earlier));
                    if before(own, key) && key == last.key && before(last.key, earlier) {
                        lemma_before_transitive(own, last.key, earlier);
                    }
                }
            }
            if key != last.key {
                let i = choose|i: int|
                    0 <= i < rest.len() && is_stray(#[trigger] rest[i]) && rest[i].key == key;
                assert(is_stray(settings[i]) && settings[i].key == key);
            }
        } else {
            match stray_key(rest) {
                Some(key) => {
                    let i = choose|i: int|
                        0 <= i < rest.len() && is_stray(#[trigger] rest[i]) && rest[i].key == key;
                    assert(is_stray(settings[i]) && settings[i].key == key);
                },
                None => {},
            }
            assert forall|i: int|
                0 <= i < settings.len() && is_stray(#[trigger] settings[i]) implies {
                &&& stray_key(rest) is Some
                &&& !before(settings[i].key, stray_key(rest)->0)
            } by {
                assert(i < rest.len());
                assert(is_stray(rest[i]));
            }
        }
    }
}

fn is_known_curve_key(key: &[char]) -> (r: bool)
    ensures
        r == is_curve_key(key@),
{
    is_text(key, "enabled") || is_text(key, "duty0") || is_text(key, "duty1") || is_text(
        key,
        "duty2",
    ) || is_text(key, "duty3") || is_text(key, "tail") || is_text(key, "max_duty") || is_text(
        key,
        "hysteresis",
    ) || is_text(key, "ramp_down")
}

/// The error of a key that a section does not take.
pub open spec fn stray_error(settings: Seq<SettingView>) -> Option<ErrorView> {
    match stray_key(settings) {
        Some(key) => Some(ErrorView::UnknownKey { section: "fan_curve"@, key }),
        None => None,
    }
}

/// Checks that the section of the fan curve has no other keys than it takes.
pub fn validate_section_keys(settings: &Vec<Setting>) -> (r: Result<(), ConfigError>)
    ensures
        match r {
            Ok(()) => stray_error(setting_views(settings@)) is None,
            Err(error) => stray_error(setting_views(settings@)) == Some(error@),
        },
{
    let ghost all = setting_views(settings@);
    let mut found: Option<Vec<char>> = None;
    for i in 0..settings.len()
        invariant
            all == setting_views(settings@),
            match found {
                Some(key) => stray_key(all.take(i as int)) == Some(key@),
                None => stray_key(all.take(i as int)) is None,
            },
    {
        let setting = &settings[i];
        assert(all.take(i + 1).drop_last() == all.take(i as int));
        assert(all.take(i + 1).last() == setting@);
        let key = chars_of(setting.key.as_str());
        if same_str(setting.section.as_str(), "fan_curve") && !is_known_curve_key(&key) {
            let replace = match &found {
                Some(earlier) => comes_before(&key, earlier),
                None => true,
            };
            if replace {
                found = Some(key);
            }
        }
    }
    assert(all.take(all.len() as int) == all);
    match found {
        Some(key) => Err(ConfigError::UnknownKey { section: "fan_curve", key: string_of(&key) }),
        None => Ok(()),
    }
}

/// The error of temperatures that do not rise.
pub open spec fn thresholds_error(section: Seq<char>, config: FanConfig) -> Option<ErrorView> {
    if config.ascending() {
        None
    } else {
        Some(ErrorView::Thresholds { section })
    }
}

/// Checks that temperatures are finite and rise.
pub fn validate_fan_thresholds(section: &'static str, config: FanConfig) -> (r: Result<
    (),
    ConfigError,
>)
    ensures
        match r {
            Ok(()) => thresholds_error(section@, config) is None,
            Err(error) => thresholds_error(section@, config) == Some(error@),
        },
{
    let finite = config.lv0.finite_test() && config.lv1.finite_test() && config.lv2.finite_test()
        && config.lv3.finite_test();
    let ascending = config.lv0.lt(config.lv1) && config.lv1.lt(config.lv2) && config.lv2.lt(
        config.lv3,
    );
    if finite && ascending {
        Ok(())
    } else {
        Err(ConfigError::Thresholds { section })
    }
}

/// The error of duties that fall.
pub open spec fn duties_error(config: FanCurveConfig) -> Option<ErrorView> {
    if config.nondecreasing() {
        None
    } else {
        Some(ErrorView::FanCurveDuties)
    }
}

/// Checks that duties do not fall.
pub fn validate_fan_curve(config: FanCurveConfig) -> (r: Result<(), ConfigError>)
    ensures
        match r {
            Ok(()) => duties_error(config) is None,
            Err(error) => duties_error(config) == Some(error@),
        },
{
    if config.duty0 <= config.duty1 && config.duty1 <= config.duty2 && config.duty2
        <= config.duty3 {
        Ok(())
    } else {
        Err(ConfigError::FanCurveDuties)
    }
}

/// The first error of two.
pub open spec fn first(a: Option<ErrorView>, b: Option<ErrorView>) -> Option<ErrorView> {
    if a is Some {
        a
    } else {
        b
    }
}

/// The temperatures of a section, and the first error in them.
pub open spec fn thresholds_setting<F: Fn(&str) -> Option<Binary64>>(
    read: F,
    settings: Seq<SettingView>,
    section: Seq<char>,
    default: FanConfig,
) -> (FanConfig, Option<ErrorView>) {
    let lv0 = number_setting(read, settings, section, "lv0"@, default.lv0);
    let lv1 = number_setting(read, settings, section, "lv1"@, default.lv1);
    let lv2 = number_setting(read, settings, section, "lv2"@, default.lv2);
    let lv3 = number_setting(read, settings, section, "lv3"@, default.lv3);
    (
        FanConfig { lv0: lv0.0, lv1: lv1.0, lv2: lv2.0, lv3: lv3.0 },
        first(lv0.1, first(lv1.1, first(lv2.1, lv3.1))),
    )
}

fn read_thresholds<F: Fn(&str) -> Option<Binary64>>(
    read_number: &F,
    settings: &Vec<Setting>,
    section: &str,
    default: FanConfig,
) -> (r: Result<FanConfig, ConfigError>)
    requires
        is_reader(*read_number),
    ensures
        settles(r, thresholds_setting(*read_number, setting_views(settings@), section@, default)),
{
    let lv0 = parse_f64(read_number, settings, section, "lv0", default.lv0)?;
    let lv1 = parse_f64(read_number, settings, section, "lv1", default.lv1)?;
    let lv2 = parse_f64(read_number, settings, section, "lv2", default.lv2)?;
    let lv3 = parse_f64(read_number, settings, section, "lv3", default.lv3)?;
    Ok(FanConfig { lv0, lv1, lv2, lv3 })
}

/// The settings of the fan curve, and the first error in them.
pub open spec fn curve_setting(settings: Seq<SettingView>) -> (FanCurveConfig, Option<ErrorView>) {
    let default = default_fan_curve();
    let section = "fan_curve"@;
    let enabled = bool_setting(settings, section, "enabled"@, default.enabled);
    let duty0 = percent_setting(settings, section, "duty0"@, default.duty0);
    let duty1 = percent_setting(settings, section, "duty1"@, default.duty1);
    let duty2 = percent_setting(settings, section, "duty2"@, default.duty2);
    let duty3 = percent_setting(settings, section, "duty3"@, default.duty3);
    let tail = tail_setting(settings, section, "tail"@, default.tail);
    let max_duty = percent_setting(settings, section, "max_duty"@, default.max_duty);
    let hysteresis = percent_setting(settings, section, "hysteresis"@, default.hysteresis);
    let ramp_down = percent_setting(settings, section, "ramp_down"@, default.ramp_down);
    let duties = first(enabled.1, first(duty0.1, first(duty1.1, first(duty2.1, duty3.1))));
    let rest = first(tail.1, first(max_duty.1, first(hysteresis.1, ramp_down.1)));
    (
        FanCurveConfig {
            enabled: enabled.0,
            duty0: duty0.0,
            duty1: duty1.0,
            duty2: duty2.0,
            duty3: duty3.0,
            tail: tail.0,
            max_duty: max_duty.0,
            hysteresis: hysteresis.0,
            ramp_down: ramp_down.0,
        },
        first(stray_error(settings), first(duties, rest)),
    )
}

fn read_curve(settings: &Vec<Setting>) -> (r: Result<FanCurveConfig, ConfigError>)
    ensures
        settles(r, curve_setting(setting_views(settings@))),
        r matches Ok(curve) ==> curve.in_percent(),
{
    validate_section_keys(settings)?;
    let default = FanCurveConfig::default();
    let enabled = parse_bool(settings, "fan_curve", "enabled", default.enabled)?;
    let duty0: u8 = parse_percent(settings, "fan_curve", "duty0", default.duty0)?;
    let duty1: u8 = parse_percent(settings, "fan_curve", "duty1", default.duty1)?;
    let duty2: u8 = parse_percent(settings, "fan_curve", "duty2", default.duty2)?;
    let duty3: u8 = parse_percent(settings, "fan_curve", "duty3", default.duty3)?;
    let tail = parse_fan_curve_tail(settings, "fan_curve", "tail", default.tail)?;
    let max_duty: u8 = parse_percent(settings, "fan_curve", "max_duty", default.max_duty)?;
    let hysteresis: u8 = parse_percent(settings, "fan_curve", "hysteresis", default.hysteresis)?;
    let ramp_down: u8 = parse_percent(settings, "fan_curve", "ramp_down", default.ramp_down)?;
    Ok(
        FanCurveConfig {
            enabled,
            duty0,
            duty1,
            duty2,
            duty3,
            tail,
            max_duty,
            hysteresis,
            ramp_down,
        },
    )
}

/// The settings of the drives, and the first error in them.
pub open spec fn drives_setting<F: Fn(&str) -> Option<Binary64>>(
    read: F,
    settings: Seq<SettingView>,
) -> (FanDrivesView, Option<ErrorView>) {
    let default = default_fan_drives();
    let section = "fan_drives"@;
    let enabled = bool_setting(settings, section, "enabled"@, default.enabled);
    let thresholds = thresholds_setting(read, settings, section, default.thresholds);
    let poll_seconds = positive_setting(settings, section, "poll_seconds"@, default.poll_seconds);
    (
        FanDrivesView {
            enabled: enabled.0,
            devices: list_setting(settings, section, "devices"@),
            thresholds: thresholds.0,
            poll_seconds: poll_seconds.0,
        },
        first(enabled.1, first(thresholds.1, poll_seconds.1)),
    )
}

fn read_drives<F: Fn(&str) -> Option<Binary64>>(read_number: &F, settings: &Vec<Setting>) -> (r: Result<
    FanDrivesConfig,
    ConfigError,
>)
    requires
        is_reader(*read_number),
    ensures
        match r {
            Ok(drives) => drives_setting(*read_number, setting_views(settings@)) == (
                drives@,
                None::<ErrorView>,
            ),
            Err(error) => drives_setting(*read_number, setting_views(settings@)).1 == Some(error@),
        },
        r matches Ok(drives) ==> drives.poll_seconds > 0,
{
    let default = FanDrivesConfig::default();
    let enabled = parse_bool(settings, "fan_drives", "enabled", default.enabled)?;
    let devices = get_list(settings, "fan_drives", "devices");
    let thresholds = read_thresholds(read_number, settings, "fan_drives", default.thresholds)?;
    let poll_seconds: u64 = parse_positive_u64(
        settings,
        "fan_drives",
        "poll_seconds",
        default.poll_seconds,
    )?;
    Ok(FanDrivesConfig { enabled, devices, thresholds, poll_seconds })
}

/// The settings of the button.
pub open spec fn key_setting(settings: Seq<SettingView>) -> KeyView {
    let default = default_key();
    KeyView {
        click: text_setting(settings, "key"@, "click"@, default.click),
        twice: text_setting(settings, "key"@, "twice"@, default.twice),
        press: text_setting(settings, "key"@, "press"@, default.press),
    }
}

/// The times of the button, and the first error in them.
pub open spec fn time_setting<F: Fn(&str) -> Option<Binary64>>(
    read: F,
    settings: Seq<SettingView>,
) -> (TimeConfig, Option<ErrorView>) {
    let default = default_time();
    let twice = number_setting(read, settings, "time"@, "twice"@, default.twice);
    let press = number_setting(read, settings, "time"@, "press"@, default.press);
    (TimeConfig { twice: twice.0, press: press.0 }, first(twice.1, press.1))
}

fn read_time<F: Fn(&str) -> Option<Binary64>>(read_number: &F, settings: &Vec<Setting>) -> (r: Result<
    TimeConfig,
    ConfigError,
>)
    requires
        is_reader(*read_number),
    ensures
        settles(r, time_setting(*read_number, setting_views(settings@))),
{
    let default = TimeConfig::default();
    let twice = parse_f64(read_number, settings, "time", "twice", default.twice)?;
    let press = parse_f64(read_number, settings, "time", "press", default.press)?;
    Ok(TimeConfig { twice, press })
}

/// The settings of the display, and the first error in them.
pub open spec fn oled_setting<F: Fn(&str) -> Option<Binary64>>(
    read: F,
    settings: Seq<SettingView>,
) -> (OledConfig, Option<ErrorView>) {
    let default = default_oled();
    let section = "oled"@;
    let rotate = bool_setting(settings, section, "rotate"@, default.rotate);
    let f_temp = bool_setting(settings, section, "f-temp"@, default.f_temp);
    let auto_slide = bool_setting(settings, section, "auto_slide"@, default.auto_slide);
    let auto_slide_time = number_setting(
        read,
        settings,
        section,
        "auto_slide_time"@,
        default.auto_slide_time,
    );
    let sleep = number_setting(read, settings, section, "sleep"@, default.sleep);
    (
        OledConfig {
            rotate: rotate.0,
            f_temp: f_temp.0,
            auto_slide: auto_slide.0,
            auto_slide_time: auto_slide_time.0,
            sleep: sleep.0,
        },
        first(
            rotate.1,
            first(f_temp.1, first(auto_slide.1, first(auto_slide_time.1, sleep.1))),
        ),
    )
}

fn read_oled<F: Fn(&str) -> Option<Binary64>>(read_number: &F, settings: &Vec<Setting>) -> (r: Result<
    OledConfig,
    ConfigError,
>)
    requires
        is_reader(*read_number),
    ensures
        settles(r, oled_setting(*read_number, setting_views(settings@))),
{
    let default = OledConfig::default();
    let rotate = parse_bool(settings, "oled", "rotate", default.rotate)?;
    let f_temp = parse_bool(settings, "oled", "f-temp", default.f_temp)?;
    let auto_slide = parse_bool(settings, "oled", "auto_slide", default.auto_slide)?;
    let auto_slide_time = parse_f64(
        read_number,
        settings,
        "oled",
        "auto_slide_time",
        default.auto_slide_time,
    )?;
    let sleep = parse_f64(read_number, settings, "oled", "sleep", default.sleep)?;
    Ok(OledConfig { rotate, f_temp, auto_slide, auto_slide_time, sleep })
}

/// All settings, and the first error in them.
pub open spec fn config_setting<F: Fn(&str) -> Option<Binary64>>(
    read: F,
    settings: Seq<SettingView>,
) -> (ConfigView, Option<ErrorView>) {
    let fan = thresholds_setting(read, settings, "fan"@, default_fan());
    let fan_curve = curve_setting(settings);
    let fan_drives = drives_setting(read, settings);
    let time = time_setting(read, settings);
    let oled = oled_setting(read, settings);
    let config = ConfigView {
        fan: fan.0,
        fan_curve: fan_curve.0,
        fan_drives: fan_drives.0,
        key: key_setting(settings),
        time: time.0,
        oled: oled.0,
        disks: list_setting(settings, "disk"@, "extra"@),
    };
    let values = first(fan.1, first(fan_curve.1, first(fan_drives.1, first(time.1, oled.1))));
    let bounds = first(
        thresholds_error("fan"@, config.fan),
        first(
            thresholds_error("fan_drives"@, config.fan_drives.thresholds),
            duties_error(config.fan_curve),
        ),
    );
    (config, first(values, bounds))
}

/// What a text says of the settings.
pub open spec fn config_in<F: Fn(&str) -> Option<Binary64>>(read: F, input: Seq<char>) -> Result<
    ConfigView,
    ErrorView,
> {
    match settings_in(input) {
        Err((line, message)) => Err(ErrorView::Parse { line, message }),
        Ok(settings) => {
            let (config, error) = config_setting(read, settings);
            match error {
                Some(error) => Err(error),
                None => Ok(config),
            }
        },
    }
}

/// Whether a result is the one given as mathematical data.
pub open spec fn agrees(r: Result<Config, ConfigError>, expected: Result<ConfigView, ErrorView>) -> bool {
    match r {
        Ok(config) => expected == Ok::<ConfigView, ErrorView>(config@),
        Err(error) => expected == Err::<ConfigView, ErrorView>(error@),
    }
}

/// Why a file could not be read.
#[derive(Debug, Clone, PartialEq, Eq)]
pub enum ReadError {
    /// There is no such file.
    NotFound,
    /// Something else went wrong.
    Other(String),
}

impl Config {
    /// Reads settings from a text, with the help of a reader of numbers.
    pub fn parse<F: Fn(&str) -> Option<Binary64>>(input: &str, read_number: &F) -> (r: Result<
        Config,
        ConfigError,
    >)
        requires
            is_reader(*read_number),
        ensures
            agrees(r, config_in(*read_number, input@)),
            r matches Ok(config) ==> config@.valid(),
    {
        let settings = match parse_ini(input) {
            Ok(settings) => settings,
            Err(error) => {
                return Err(ConfigError::Parse { line: error.line, message: error.message });
            },
        };
        let fan = read_thresholds(read_number, &settings, "fan", FanConfig::default())?;
        let fan_curve = read_curve(&settings)?;
        let fan_drives = read_drives(read_number, &settings)?;
        let default_key = KeyConfig::default();
        let key = KeyConfig {
            click: get_string(&settings, "key", "click", default_key.click.as_str()),
            twice: get_string(&settings, "key", "twice", default_key.twice.as_str()),
            press: get_string(&settings, "key", "press", default_key.press.as_str()),
        };
        let time = read_time(read_number, &settings)?;
        let oled = read_oled(read_number, &settings)?;
        let disks = get_list(&settings, "disk", "extra");
        validate_fan_thresholds("fan", fan)?;
        validate_fan_thresholds("fan_drives", fan_drives.thresholds)?;
        validate_fan_curve(fan_curve)?;
        Ok(Config { fan, fan_curve, fan_drives, key, time, oled, disks })
    }

    /// Reads settings from what a file holds; where there is no file, they are
    /// as by default.
    pub fn from_file_or_defaults<F: Fn(&str) -> Option<Binary64>>(
        contents: Result<String, ReadError>,
        read_number: &F,
    ) -> (r: Result<Config, ConfigError>)
        requires
            is_reader(*read_number),
        ensures
            match contents {
                Ok(text) => agrees(r, config_in(*read_number, text@)),
                Err(ReadError::NotFound) => r matches Ok(config) && config@ == default_config(),
                Err(ReadError::Other(error)) => r matches Err(reason) && reason@ == ErrorView::Io(
                    error@,
                ),
            },
            r matches Ok(config) ==> config@.valid(),
    {
        match contents {
            Ok(text) => Config::parse(text.as_str(), read_number),
            Err(ReadError::NotFound) => {
                proof {
                    defaults_are_valid();
                }
                Ok(Config::default())
            },
            Err(ReadError::Other(error)) => Err(ConfigError::Io(error)),
        }
    }
}

/// A text without settings leaves everything as by default.
pub proof fn no_settings_means_defaults<F: Fn(&str) -> Option<Binary64>>(read: F, input: Seq<char>)
    requires
        settings_in(input) == Ok::<Seq<SettingView>, (int, Seq<char>)>(Seq::empty()),
    ensures
        config_in(read, input) == Ok::<ConfigView, ErrorView>(default_config()),
{
    defaults_are_valid();
}

/// The text of an error names what is wrong: the line, the key and the value, or
/// the section.
pub proof fn errors_name_what_is_wrong(
    line: nat,
    message: Seq<char>,
    key: Seq<char>,
    value: Seq<char>,
    section: Seq<char>,
)
    ensures
        config_error_text(ErrorView::Io(message)) == "config I/O error: "@ + message,
        config_error_text(ErrorView::Parse { line: line as int, message })
            == "config parse error on line "@ + decimal(line) + ": "@ + message,
        config_error_text(ErrorView::Value { key, value, expected: message })
            == "invalid config value for "@ + key + ": "@ + quoted(value) + ", expected "@ + message,
        config_error_text(ErrorView::Thresholds { section }) == "invalid ["@ + section
            + "] thresholds: lv0 through lv3 must be finite and strictly ascending"@,
        config_error_text(ErrorView::FanCurveDuties)
            == "invalid [fan_curve] duties: duty0 through duty3 must be nondecreasing"@,
        config_error_text(ErrorView::UnknownKey { section, key }) == "unknown key "@ + quoted(key)
            + " in ["@ + section + "]"@,
{
}

} // verus!
