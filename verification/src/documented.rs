//! What the documented keys of the settings do.
//!
//! Each key sets one thing and leaves all others as by default; what it takes is
//! said here in the words of the documentation.

use vstd::arithmetic::power2::lemma2_to64_rest;
use vstd::prelude::*;

use crate::binary64::{lemma_units, one, Binary64};
use crate::config::{
    bool_in, config_in, default_config, default_fan, default_fan_curve,
    default_fan_drives, default_key, default_oled, default_time, defaults_are_valid,
    percent_in, positive_in, stray_key, tail_in, ConfigView, ErrorView, FanConfig, FanCurveConfig,
    FanCurveTail, FanDrivesView, KeyView, OledConfig, TimeConfig,
};
use crate::ini::{is_clean, one_setting, one_setting_is_read, settings_in, value_of, SettingView};
use crate::number::{
    decimal, is_digits, only_digits_are_numbers, unsigned, written_number_reads_back,
};
use crate::reader::number_in;
use crate::split::csv;
use crate::text::{all_space, is_space, lowered, trimmed, trimming_cuts_space_around};

verus! {

proof fn lemma_sections_differ()
    ensures
        "fan"@ != "fan_curve"@,
        "fan"@ != "fan_drives"@,
        "fan"@ != "key"@,
        "fan"@ != "time"@,
        "fan"@ != "oled"@,
        "fan"@ != "disk"@,
        "fan_curve"@ != "fan_drives"@,
        "fan_curve"@ != "key"@,
        "fan_curve"@ != "time"@,
        "fan_curve"@ != "oled"@,
        "fan_curve"@ != "disk"@,
        "fan_drives"@ != "key"@,
        "fan_drives"@ != "time"@,
        "fan_drives"@ != "oled"@,
        "fan_drives"@ != "disk"@,
        "key"@ != "time"@,
        "key"@ != "oled"@,
        "key"@ != "disk"@,
        "time"@ != "oled"@,
        "time"@ != "disk"@,
        "oled"@ != "disk"@,
{
    reveal_strlit("fan");
    reveal_strlit("fan_curve");
    reveal_strlit("fan_drives");
    reveal_strlit("key");
    reveal_strlit("time");
    reveal_strlit("oled");
    reveal_strlit("disk");
    assert("fan"@[0] == 'f' && "key"@[0] == 'k' && "time"@[0] == 't' && "oled"@[0] == 'o'
        && "disk"@[0] == 'd');
    assert("fan"@.len() == 3 && "fan_curve"@.len() == 9 && "fan_drives"@.len() == 10);
}

proof fn lemma_keys_differ()
    ensures
        "lv0"@ != "lv1"@ && "lv0"@ != "lv2"@ && "lv0"@ != "lv3"@,
        "lv1"@ != "lv2"@ && "lv1"@ != "lv3"@ && "lv2"@ != "lv3"@,
        "enabled"@ != "devices"@ && "enabled"@ != "poll_seconds"@ && "devices"@ != "poll_seconds"@,
        "enabled"@ != "lv0"@ && "enabled"@ != "lv1"@ && "enabled"@ != "lv2"@ && "enabled"@
            != "lv3"@,
        "devices"@ != "lv0"@ && "devices"@ != "lv1"@ && "devices"@ != "lv2"@ && "devices"@
            != "lv3"@,
        "poll_seconds"@ != "lv0"@ && "poll_seconds"@ != "lv1"@ && "poll_seconds"@ != "lv2"@
            && "poll_seconds"@ != "lv3"@,
        "click"@ != "twice"@ && "click"@ != "press"@ && "twice"@ != "press"@,
        "rotate"@ != "f-temp"@ && "rotate"@ != "auto_slide"@ && "rotate"@ != "auto_slide_time"@
            && "rotate"@ != "sleep"@,
        "f-temp"@ != "auto_slide"@ && "f-temp"@ != "auto_slide_time"@ && "f-temp"@ != "sleep"@,
        "auto_slide"@ != "auto_slide_time"@ && "auto_slide"@ != "sleep"@ && "auto_slide_time"@
            != "sleep"@,
{
    reveal_strlit("lv0");
    reveal_strlit("lv1");
    reveal_strlit("lv2");
    reveal_strlit("lv3");
    reveal_strlit("enabled");
    reveal_strlit("devices");
    reveal_strlit("poll_seconds");
    reveal_strlit("click");
    reveal_strlit("twice");
    reveal_strlit("press");
    reveal_strlit("rotate");
    reveal_strlit("f-temp");
    reveal_strlit("auto_slide");
    reveal_strlit("auto_slide_time");
    reveal_strlit("sleep");
    assert("lv0"@[2] == '0' && "lv1"@[2] == '1' && "lv2"@[2] == '2' && "lv3"@[2] == '3');
    assert("lv0"@.len() == 3 && "lv1"@.len() == 3 && "lv2"@.len() == 3 && "lv3"@.len() == 3);
    assert("enabled"@.len() == 7 && "devices"@.len() == 7 && "poll_seconds"@.len() == 12);
    assert("enabled"@[0] == 'e' && "devices"@[0] == 'd');
    assert("click"@[0] == 'c' && "twice"@[0] == 't' && "press"@[0] == 'p');
    assert("rotate"@[0] == 'r' && "f-temp"@[0] == 'f' && "auto_slide"@[0] == 'a' && "sleep"@[0]
        == 's' && "auto_slide_time"@[0] == 'a');
    assert("auto_slide"@.len() == 10 && "auto_slide_time"@.len() == 15);
}

proof fn lemma_curve_keys_differ()
    ensures
        "duty0"@ != "duty1"@ && "duty0"@ != "duty2"@ && "duty0"@ != "duty3"@,
        "duty1"@ != "duty2"@ && "duty1"@ != "duty3"@ && "duty2"@ != "duty3"@,
        "enabled"@ != "duty0"@ && "enabled"@ != "duty1"@ && "enabled"@ != "duty2"@ && "enabled"@
            != "duty3"@ && "enabled"@ != "tail"@ && "enabled"@ != "max_duty"@ && "enabled"@
            != "hysteresis"@ && "enabled"@ != "ramp_down"@,
        "tail"@ != "duty0"@ && "tail"@ != "duty1"@ && "tail"@ != "duty2"@ && "tail"@ != "duty3"@
            && "tail"@ != "max_duty"@ && "tail"@ != "hysteresis"@ && "tail"@ != "ramp_down"@,
        "max_duty"@ != "duty0"@ && "max_duty"@ != "duty1"@ && "max_duty"@ != "duty2"@ && "max_duty"@
            != "duty3"@ && "max_duty"@ != "hysteresis"@ && "max_duty"@ != "ramp_down"@,
        "hysteresis"@ != "duty0"@ && "hysteresis"@ != "duty1"@ && "hysteresis"@ != "duty2"@
            && "hysteresis"@ != "duty3"@ && "hysteresis"@ != "ramp_down"@,
        "ramp_down"@ != "duty0"@ && "ramp_down"@ != "duty1"@ && "ramp_down"@ != "duty2"@
            && "ramp_down"@ != "duty3"@,
{
    reveal_strlit("enabled");
    reveal_strlit("duty0");
    reveal_strlit("duty1");
    reveal_strlit("duty2");
    reveal_strlit("duty3");
    reveal_strlit("tail");
    reveal_strlit("max_duty");
    reveal_strlit("hysteresis");
    reveal_strlit("ramp_down");
    assert("duty0"@[4] == '0' && "duty1"@[4] == '1' && "duty2"@[4] == '2' && "duty3"@[4] == '3');
    assert("duty0"@.len() == 5 && "duty1"@.len() == 5 && "duty2"@.len() == 5 && "duty3"@.len() == 5);
    assert("enabled"@.len() == 7 && "tail"@.len() == 4 && "max_duty"@.len() == 8
        && "hysteresis"@.len() == 10 && "ramp_down"@.len() == 9);
}

/// Whether a text says nothing but that one key of one section has a value.
pub open spec fn says_only(
    input: Seq<char>,
    section: Seq<char>,
    key: Seq<char>,
    value: Seq<char>,
) -> bool {
    settings_in(input) == Ok::<Seq<SettingView>, (int, Seq<char>)>(
        seq![SettingView { section, key, value }],
    )
}

proof fn lemma_only_value(section: Seq<char>, key: Seq<char>, value: Seq<char>)
    ensures
        forall|s: Seq<char>, k: Seq<char>| #[trigger]
            value_of(seq![SettingView { section, key, value }], s, k) == if s == section && k
                == key {
                Some(value)
            } else {
                None
            },
{
    let settings = seq![SettingView { section, key, value }];
    assert(settings.drop_last() =~= Seq::<SettingView>::empty());
    assert forall|s: Seq<char>, k: Seq<char>| #[trigger] value_of(settings, s, k) == if s == section
        && k == key {
        Some(value)
    } else {
        None
    } by {
        assert(value_of(Seq::<SettingView>::empty(), s, k) is None);
    }
}

proof fn lemma_no_stray(section: Seq<char>, key: Seq<char>, value: Seq<char>)
    requires
        section != "fan_curve"@ || crate::config::is_curve_key(key),
    ensures
        stray_key(seq![SettingView { section, key, value }]) is None,
{
    let settings = seq![SettingView { section, key, value }];
    assert(settings.drop_last() =~= Seq::<SettingView>::empty());
    assert(stray_key(Seq::<SettingView>::empty()) is None);
}

/// Whether an error says that a key has a value of the wrong kind.
pub open spec fn is_refused(
    r: Result<ConfigView, ErrorView>,
    key: Seq<char>,
    value: Seq<char>,
    expected: Seq<char>,
) -> bool {
    r == Err::<ConfigView, ErrorView>(ErrorView::Value { key, value, expected })
}

/// Whether settings are as given.
pub open spec fn is_accepted(r: Result<ConfigView, ErrorView>, config: ConfigView) -> bool {
    r == Ok::<ConfigView, ErrorView>(config)
}

/// The keys of the display: `rotate`, `f-temp` and `auto_slide` take yes or no,
/// `auto_slide_time` and `sleep` take numbers.
pub proof fn keys_of_the_display<F: Fn(&str) -> Option<Binary64>>(
    read: F,
    input: Seq<char>,
    key: Seq<char>,
    value: Seq<char>,
)
    requires
        says_only(input, "oled"@, key, value),
    ensures
        ({
            let r = config_in(read, input);
            let all = default_config();
            &&& key == "rotate"@ ==> match bool_in(value) {
                Some(rotate) => is_accepted(
                    r,
                    ConfigView { oled: OledConfig { rotate, ..all.oled }, ..all },
                ),
                None => is_refused(r, key, value, "boolean"@),
            }
            &&& key == "f-temp"@ ==> match bool_in(value) {
                Some(f_temp) => is_accepted(
                    r,
                    ConfigView { oled: OledConfig { f_temp, ..all.oled }, ..all },
                ),
                None => is_refused(r, key, value, "boolean"@),
            }
            &&& key == "auto_slide"@ ==> match bool_in(value) {
                Some(auto_slide) => is_accepted(
                    r,
                    ConfigView { oled: OledConfig { auto_slide, ..all.oled }, ..all },
                ),
                None => is_refused(r, key, value, "boolean"@),
            }
            &&& key == "auto_slide_time"@ ==> match number_in(read, value) {
                Some(auto_slide_time) => is_accepted(
                    r,
                    ConfigView { oled: OledConfig { auto_slide_time, ..all.oled }, ..all },
                ),
                None => is_refused(r, key, value, "number"@),
            }
            &&& key == "sleep"@ ==> match number_in(read, value) {
                Some(sleep) => is_accepted(
                    r,
                    ConfigView { oled: OledConfig { sleep, ..all.oled }, ..all },
                ),
                None => is_refused(r, key, value, "number"@),
            }
        }),
{
    lemma_sections_differ();
    lemma_keys_differ();
    lemma_only_value("oled"@, key, value);
    lemma_no_stray("oled"@, key, value);
    defaults_are_valid();
}

/// Whether settings are as given, or refused because the temperatures of a
/// section are not finite or do not rise.
pub open spec fn is_accepted_if_rising(
    r: Result<ConfigView, ErrorView>,
    section: Seq<char>,
    t: FanConfig,
    config: ConfigView,
) -> bool {
    let rising = t.lv0.is_finite() && t.lv1.is_finite() && t.lv2.is_finite() && t.lv3.is_finite()
        && t.lv0.value() < t.lv1.value() && t.lv1.value() < t.lv2.value() && t.lv2.value()
        < t.lv3.value();
    if rising {
        is_accepted(r, config)
    } else {
        r == Err::<ConfigView, ErrorView>(ErrorView::Thresholds { section })
    }
}

/// Whether settings are as given, or refused because the duties of the curve
/// fall.
pub open spec fn is_accepted_if_level(
    r: Result<ConfigView, ErrorView>,
    curve: FanCurveConfig,
    config: ConfigView,
) -> bool {
    if curve.duty0 <= curve.duty1 && curve.duty1 <= curve.duty2 && curve.duty2 <= curve.duty3 {
        is_accepted(r, config)
    } else {
        r == Err::<ConfigView, ErrorView>(ErrorView::FanCurveDuties)
    }
}

/// The temperatures of the processor at which the fan does more: `lv0` to `lv3`
/// take numbers, which have to rise.
pub proof fn keys_of_the_fan<F: Fn(&str) -> Option<Binary64>>(
    read: F,
    input: Seq<char>,
    key: Seq<char>,
    value: Seq<char>,
)
    requires
        says_only(input, "fan"@, key, value),
    ensures
        ({
            let r = config_in(read, input);
            let all = default_config();
            &&& key == "lv0"@ ==> match number_in(read, value) {
                Some(lv0) => is_accepted_if_rising(r, "fan"@, ConfigView { fan: FanConfig { lv0, ..all.fan }, ..all }.fan, ConfigView { fan: FanConfig { lv0, ..all.fan }, ..all }),
                None => is_refused(r, key, value, "number"@),
            }
            &&& key == "lv1"@ ==> match number_in(read, value) {
                Some(lv1) => is_accepted_if_rising(r, "fan"@, ConfigView { fan: FanConfig { lv1, ..all.fan }, ..all }.fan, ConfigView { fan: FanConfig { lv1, ..all.fan }, ..all }),
                None => is_refused(r, key, value, "number"@),
            }
            &&& key == "lv2"@ ==> match number_in(read, value) {
                Some(lv2) => is_accepted_if_rising(r, "fan"@, ConfigView { fan: FanConfig { lv2, ..all.fan }, ..all }.fan, ConfigView { fan: FanConfig { lv2, ..all.fan }, ..all }),
                None => is_refused(r, key, value, "number"@),
            }
            &&& key == "lv3"@ ==> match number_in(read, value) {
                Some(lv3) => is_accepted_if_rising(r, "fan"@, ConfigView { fan: FanConfig { lv3, ..all.fan }, ..all }.fan, ConfigView { fan: FanConfig { lv3, ..all.fan }, ..all }),
                None => is_refused(r, key, value, "number"@),
            }
        }),
{
    lemma_sections_differ();
    lemma_keys_differ();
    lemma_only_value("fan"@, key, value);
    lemma_no_stray("fan"@, key, value);
    defaults_are_valid();
}

/// The keys of the fan curve: `enabled` takes yes or no, `duty0` to `duty3`,
/// `max_duty`, `hysteresis` and `ramp_down` take percentages, and `tail` takes
/// `hold` or `extrapolate`. The duties must not fall.
pub proof fn keys_of_the_curve<F: Fn(&str) -> Option<Binary64>>(
    read: F,
    input: Seq<char>,
    key: Seq<char>,
    value: Seq<char>,
)
    requires
        says_only(input, "fan_curve"@, key, value),
        crate::config::is_curve_key(key),
    ensures
        ({
            let r = config_in(read, input);
            let all = default_config();
            &&& key == "enabled"@ ==> match bool_in(value) {
                Some(enabled) => is_accepted(r, ConfigView { fan_curve: FanCurveConfig { enabled, ..all.fan_curve }, ..all }),
                None => is_refused(r, key, value, "boolean"@),
            }
            &&& key == "duty0"@ ==> match percent_in(value) {
                Some(duty0) => is_accepted_if_level(r, ConfigView { fan_curve: FanCurveConfig { duty0, ..all.fan_curve }, ..all }.fan_curve, ConfigView { fan_curve: FanCurveConfig { duty0, ..all.fan_curve }, ..all }),
                None => is_refused(r, key, value, "integer in 0..=100"@),
            }
            &&& key == "duty1"@ ==> match percent_in(value) {
                Some(duty1) => is_accepted_if_level(r, ConfigView { fan_curve: FanCurveConfig { duty1, ..all.fan_curve }, ..all }.fan_curve, ConfigView { fan_curve: FanCurveConfig { duty1, ..all.fan_curve }, ..all }),
                None => is_refused(r, key, value, "integer in 0..=100"@),
            }
            &&& key == "duty2"@ ==> match percent_in(value) {
                Some(duty2) => is_accepted_if_level(r, ConfigView { fan_curve: FanCurveConfig { duty2, ..all.fan_curve }, ..all }.fan_curve, ConfigView { fan_curve: FanCurveConfig { duty2, ..all.fan_curve }, ..all }),
                None => is_refused(r, key, value, "integer in 0..=100"@),
            }
            &&& key == "duty3"@ ==> match percent_in(value) {
                Some(duty3) => is_accepted_if_level(r, ConfigView { fan_curve: FanCurveConfig { duty3, ..all.fan_curve }, ..all }.fan_curve, ConfigView { fan_curve: FanCurveConfig { duty3, ..all.fan_curve }, ..all }),
                None => is_refused(r, key, value, "integer in 0..=100"@),
            }
            &&& key == "tail"@ ==> match tail_in(value) {
                Some(tail) => is_accepted(r, ConfigView { fan_curve: FanCurveConfig { tail, ..all.fan_curve }, ..all }),
                None => is_refused(r, key, value, "hold or extrapolate"@),
            }
            &&& key == "max_duty"@ ==> match percent_in(value) {
                Some(max_duty) => is_accepted(r, ConfigView { fan_curve: FanCurveConfig { max_duty, ..all.fan_curve }, ..all }),
                None => is_refused(r, key, value, "integer in 0..=100"@),
            }
            &&& key == "hysteresis"@ ==> match percent_in(value) {
                Some(hysteresis) => is_accepted(r, ConfigView { fan_curve: FanCurveConfig { hysteresis, ..all.fan_curve }, ..all }),
                None => is_refused(r, key, value, "integer in 0..=100"@),
            }
            &&& key == "ramp_down"@ ==> match percent_in(value) {
                Some(ramp_down) => is_accepted(r, ConfigView { fan_curve: FanCurveConfig { ramp_down, ..all.fan_curve }, ..all }),
                None => is_refused(r, key, value, "integer in 0..=100"@),
            }
        }),
{
    lemma_sections_differ();
    lemma_keys_differ();
    lemma_curve_keys_differ();
    lemma_only_value("fan_curve"@, key, value);
    lemma_no_stray("fan_curve"@, key, value);
    defaults_are_valid();
}

/// The keys of the drives: `enabled` takes yes or no, `devices` a list, `lv0` to
/// `lv3` numbers that rise, and `poll_seconds` a positive number.
pub proof fn keys_of_the_drives<F: Fn(&str) -> Option<Binary64>>(
    read: F,
    input: Seq<char>,
    key: Seq<char>,
    value: Seq<char>,
)
    requires
        says_only(input, "fan_drives"@, key, value),
    ensures
        ({
            let r = config_in(read, input);
            let all = default_config();
            &&& key == "enabled"@ ==> match bool_in(value) {
                Some(enabled) => is_accepted(r, ConfigView { fan_drives: FanDrivesView { enabled, ..all.fan_drives }, ..all }),
                None => is_refused(r, key, value, "boolean"@),
            }
            &&& key == "poll_seconds"@ ==> match positive_in(value) {
                Some(poll_seconds) => is_accepted(r, ConfigView { fan_drives: FanDrivesView { poll_seconds, ..all.fan_drives }, ..all }),
                None => is_refused(r, key, value, "positive integer"@),
            }
            &&& key == "lv0"@ ==> match number_in(read, value) {
                Some(lv0) => is_accepted_if_rising(r, "fan_drives"@, ConfigView { fan_drives: FanDrivesView { thresholds: FanConfig { lv0, ..all.fan_drives.thresholds }, ..all.fan_drives }, ..all }.fan_drives.thresholds, ConfigView { fan_drives: FanDrivesView { thresholds: FanConfig { lv0, ..all.fan_drives.thresholds }, ..all.fan_drives }, ..all }),
                None => is_refused(r, key, value, "number"@),
            }
            &&& key == "lv1"@ ==> match number_in(read, value) {
                Some(lv1) => is_accepted_if_rising(r, "fan_drives"@, ConfigView { fan_drives: FanDrivesView { thresholds: FanConfig { lv1, ..all.fan_drives.thresholds }, ..all.fan_drives }, ..all }.fan_drives.thresholds, ConfigView { fan_drives: FanDrivesView { thresholds: FanConfig { lv1, ..all.fan_drives.thresholds }, ..all.fan_drives }, ..all }),
                None => is_refused(r, key, value, "number"@),
            }
            &&& key == "lv2"@ ==> match number_in(read, value) {
                Some(lv2) => is_accepted_if_rising(r, "fan_drives"@, ConfigView { fan_drives: FanDrivesView { thresholds: FanConfig { lv2, ..all.fan_drives.thresholds }, ..all.fan_drives }, ..all }.fan_drives.thresholds, ConfigView { fan_drives: FanDrivesView { thresholds: FanConfig { lv2, ..all.fan_drives.thresholds }, ..all.fan_drives }, ..all }),
                None => is_refused(r, key, value, "number"@),
            }
            &&& key == "lv3"@ ==> match number_in(read, value) {
                Some(lv3) => is_accepted_if_rising(r, "fan_drives"@, ConfigView { fan_drives: FanDrivesView { thresholds: FanConfig { lv3, ..all.fan_drives.thresholds }, ..all.fan_drives }, ..all }.fan_drives.thresholds, ConfigView { fan_drives: FanDrivesView { thresholds: FanConfig { lv3, ..all.fan_drives.thresholds }, ..all.fan_drives }, ..all }),
                None => is_refused(r, key, value, "number"@),
            }
            &&& key == "devices"@ ==> is_accepted(
                r,
                ConfigView {
                    fan_drives: FanDrivesView { devices: csv(value), ..all.fan_drives },
                    ..all
                },
            )
        }),
{
    lemma_sections_differ();
    lemma_keys_differ();
    lemma_only_value("fan_drives"@, key, value);
    lemma_no_stray("fan_drives"@, key, value);
    defaults_are_valid();
}

/// The actions of the button: `click`, `twice` and `press` take texts, and what is
/// empty counts as not given.
pub proof fn keys_of_the_button<F: Fn(&str) -> Option<Binary64>>(
    read: F,
    input: Seq<char>,
    key: Seq<char>,
    value: Seq<char>,
)
    requires
        says_only(input, "key"@, key, value),
    ensures
        ({
            let r = config_in(read, input);
            let all = default_config();
            &&& key == "click"@ && trimmed(value).len() > 0 ==> is_accepted(
                r,
                ConfigView { key: KeyView { click: trimmed(value), ..all.key }, ..all },
            )
            &&& key == "click"@ && trimmed(value).len() == 0 ==> is_accepted(r, all)
            &&& key == "twice"@ && trimmed(value).len() > 0 ==> is_accepted(
                r,
                ConfigView { key: KeyView { twice: trimmed(value), ..all.key }, ..all },
            )
            &&& key == "twice"@ && trimmed(value).len() == 0 ==> is_accepted(r, all)
            &&& key == "press"@ && trimmed(value).len() > 0 ==> is_accepted(
                r,
                ConfigView { key: KeyView { press: trimmed(value), ..all.key }, ..all },
            )
            &&& key == "press"@ && trimmed(value).len() == 0 ==> is_accepted(r, all)
        }),
{
    lemma_sections_differ();
    lemma_keys_differ();
    lemma_only_value("key"@, key, value);
    lemma_no_stray("key"@, key, value);
    defaults_are_valid();
}

/// The times of the button: `twice` and `press` take numbers.
pub proof fn keys_of_the_times<F: Fn(&str) -> Option<Binary64>>(
    read: F,
    input: Seq<char>,
    key: Seq<char>,
    value: Seq<char>,
)
    requires
        says_only(input, "time"@, key, value),
    ensures
        ({
            let r = config_in(read, input);
            let all = default_config();
            &&& key == "twice"@ ==> match number_in(read, value) {
                Some(twice) => is_accepted(r, ConfigView { time: TimeConfig { twice, ..all.time }, ..all }),
                None => is_refused(r, key, value, "number"@),
            }
            &&& key == "press"@ ==> match number_in(read, value) {
                Some(press) => is_accepted(r, ConfigView { time: TimeConfig { press, ..all.time }, ..all }),
                None => is_refused(r, key, value, "number"@),
            }
        }),
{
    lemma_sections_differ();
    lemma_keys_differ();
    lemma_only_value("time"@, key, value);
    lemma_no_stray("time"@, key, value);
    defaults_are_valid();
}

/// The list of disks is `extra`.
pub proof fn key_of_the_disks<F: Fn(&str) -> Option<Binary64>>(
    read: F,
    input: Seq<char>,
    value: Seq<char>,
)
    requires
        says_only(input, "disk"@, "extra"@, value),
    ensures
        is_accepted(config_in(read, input), ConfigView { disks: csv(value), ..default_config() }),
{
    lemma_sections_differ();
    lemma_only_value("disk"@, "extra"@, value);
    lemma_no_stray("disk"@, "extra"@, value);
    defaults_are_valid();
}

/// A key that the section of the fan curve does not take is refused, by its name.
/// Keys and sections that nothing is known of change nothing elsewhere.
pub proof fn unknown_keys<F: Fn(&str) -> Option<Binary64>>(
    read: F,
    input: Seq<char>,
    section: Seq<char>,
    key: Seq<char>,
    value: Seq<char>,
)
    requires
        says_only(input, section, key, value),
    ensures
        section == "fan_curve"@ && key != "enabled"@ && key != "duty0"@ && key != "duty1"@ && key
            != "duty2"@ && key != "duty3"@ && key != "tail"@ && key != "max_duty"@ && key
            != "hysteresis"@ && key != "ramp_down"@ ==> config_in(read, input) == Err::<
            ConfigView,
            ErrorView,
        >(ErrorView::UnknownKey { section: "fan_curve"@, key }),
        section != "fan"@ && section != "fan_curve"@ && section != "fan_drives"@ && section
            != "key"@ && section != "time"@ && section != "oled"@ && section != "disk"@
            ==> is_accepted(config_in(read, input), default_config()),
        section == "oled"@ && key != "rotate"@ && key != "f-temp"@ && key != "auto_slide"@ && key
            != "auto_slide_time"@ && key != "sleep"@ ==> is_accepted(
            config_in(read, input),
            default_config(),
        ),
        section == "disk"@ && key != "extra"@ ==> is_accepted(
            config_in(read, input),
            default_config(),
        ),
{
    lemma_sections_differ();
    lemma_only_value(section, key, value);
    let settings = seq![SettingView { section, key, value }];
    assert(settings.drop_last() =~= Seq::<SettingView>::empty());
    assert(stray_key(Seq::<SettingView>::empty()) is None);
    defaults_are_valid();
}

/// A line with a key and a value, after the header of its section, says that and
/// nothing else.
pub proof fn a_header_and_a_line_say_one_thing(
    section: Seq<char>,
    key: Seq<char>,
    value: Seq<char>,
)
    requires
        is_clean(section),
        section.len() > 0,
        lowered(section) == section,
        is_clean(key),
        key.len() > 0,
        key[0] != '[',
        !key.contains('='),
        lowered(key) == key,
        is_clean(value),
    ensures
        says_only(one_setting(section, key, value), section, key, value),
{
    one_setting_is_read(section, key, value);
}

/// Yes is `true`, `yes`, `on` or `1`, and no is `false`, `no`, `off` or `0`, in
/// any case of their letters and with any white space around them. Nothing else
/// is either.
pub proof fn words_for_yes_and_no(before: Seq<char>, word: Seq<char>, after: Seq<char>)
    requires
        all_space(before),
        all_space(after),
        word.len() > 0 ==> !is_space(word[0]) && !is_space(word.last()),
    ensures
        ({
            let w = lowered(word);
            let yes = w == seq!['t', 'r', 'u', 'e'] || w == seq!['y', 'e', 's'] || w == seq!['o', 'n']
                || w == seq!['1'];
            let no = w == seq!['f', 'a', 'l', 's', 'e'] || w == seq!['n', 'o'] || w == seq![
                'o',
                'f',
                'f',
            ] || w == seq!['0'];
            bool_in(before + word + after) == if yes {
                Some(true)
            } else if no {
                Some(false)
            } else {
                None
            }
        }),
{
    trimming_cuts_space_around(before, word, after);
    reveal_strlit("true");
    reveal_strlit("yes");
    reveal_strlit("on");
    reveal_strlit("1");
    reveal_strlit("false");
    reveal_strlit("no");
    reveal_strlit("off");
    reveal_strlit("0");
    assert("true"@ =~= seq!['t', 'r', 'u', 'e']);
    assert("yes"@ =~= seq!['y', 'e', 's']);
    assert("on"@ =~= seq!['o', 'n']);
    assert("1"@ =~= seq!['1']);
    assert("false"@ =~= seq!['f', 'a', 'l', 's', 'e']);
    assert("no"@ =~= seq!['n', 'o']);
    assert("off"@ =~= seq!['o', 'f', 'f']);
    assert("0"@ =~= seq!['0']);
}

/// The words for the tail of a curve, in any case of their letters and with any
/// white space around them.
pub proof fn words_for_the_tail(before: Seq<char>, word: Seq<char>, after: Seq<char>)
    requires
        all_space(before),
        all_space(after),
        word.len() > 0 ==> !is_space(word[0]) && !is_space(word.last()),
    ensures
        tail_in(before + word + after) == if lowered(word) == seq!['h', 'o', 'l', 'd'] {
            Some(FanCurveTail::Hold)
        } else if lowered(word) == seq![
            'e',
            'x',
            't',
            'r',
            'a',
            'p',
            'o',
            'l',
            'a',
            't',
            'e',
        ] {
            Some(FanCurveTail::Extrapolate)
        } else {
            None
        },
{
    trimming_cuts_space_around(before, word, after);
    reveal_strlit("hold");
    reveal_strlit("extrapolate");
    assert("hold"@ =~= seq!['h', 'o', 'l', 'd']);
    assert("extrapolate"@ =~= seq!['e', 'x', 't', 'r', 'a', 'p', 'o', 'l', 'a', 't', 'e']);
}

/// A percentage is a whole number from zero to a hundred, and a positive number
/// is a whole number of 64 bits other than zero. Texts that are not numbers are
/// neither.
pub proof fn whole_numbers_are_bounded(n: nat, text: Seq<char>)
    ensures
        n <= 100 ==> percent_in(decimal(n)) == Some(n as u8),
        n > 100 ==> percent_in(decimal(n)) is None,
        0 < n <= u64::MAX ==> positive_in(decimal(n)) == Some(n as u64),
        n == 0 || n > u64::MAX ==> positive_in(decimal(n)) is None,
        !is_digits(text) && !(text.len() > 0 && text[0] == '+' && is_digits(text.skip(1)))
            ==> percent_in(text) is None && positive_in(text) is None,
        percent_in(text) matches Some(p) ==> p <= 100,
        positive_in(text) matches Some(p) ==> p > 0,
{
    if n <= 100 {
        written_number_reads_back(n, 100);
    } else {
        written_number_reads_back(n, n as int);
        only_digits_are_numbers(decimal(n), n as int);
        assert(unsigned(decimal(n), 100) is None);
    }
    if n <= u64::MAX {
        written_number_reads_back(n, u64::MAX as int);
    } else {
        written_number_reads_back(n, n as int);
        only_digits_are_numbers(decimal(n), n as int);
        assert(unsigned(decimal(n), u64::MAX as int) is None);
    }
}

/// What a value means to a key that takes yes or no.
pub open spec fn bool_given(value: Option<Seq<char>>, default: bool, got: bool) -> bool {
    match value {
        Some(text) => bool_in(text) == Some(got),
        None => got == default,
    }
}

/// What a value means to a key that takes a percentage.
pub open spec fn percent_given(value: Option<Seq<char>>, default: u8, got: u8) -> bool {
    match value {
        Some(text) => percent_in(text) == Some(got),
        None => got == default,
    }
}

/// What a value means to a key that takes a number.
pub open spec fn number_given<F: Fn(&str) -> Option<Binary64>>(
    read: F,
    value: Option<Seq<char>>,
    default: Binary64,
    got: Binary64,
) -> bool {
    match value {
        Some(text) => number_in(read, text) == Some(got),
        None => got == default,
    }
}

/// What a value means to a key that takes a text.
pub open spec fn text_given(value: Option<Seq<char>>, default: Seq<char>, got: Seq<char>) -> bool {
    got == match value {
        Some(text) => if trimmed(text).len() > 0 {
            trimmed(text)
        } else {
            default
        },
        None => default,
    }
}

/// Settings that are accepted are what the text says: each is the value that was
/// last given for its key, or as by default where none was given, whatever the
/// other settings are.
pub proof fn accepted_settings_are_as_given<F: Fn(&str) -> Option<Binary64>>(
    read: F,
    input: Seq<char>,
    settings: Seq<SettingView>,
    c: ConfigView,
)
    requires
        settings_in(input) == Ok::<Seq<SettingView>, (int, Seq<char>)>(settings),
        config_in(read, input) == Ok::<ConfigView, ErrorView>(c),
    ensures
        ({
            let fan = default_fan();
            let v = |key: Seq<char>| value_of(settings, "fan"@, key);
            &&& number_given(read, v("lv0"@), fan.lv0, c.fan.lv0)
            &&& number_given(read, v("lv1"@), fan.lv1, c.fan.lv1)
            &&& number_given(read, v("lv2"@), fan.lv2, c.fan.lv2)
            &&& number_given(read, v("lv3"@), fan.lv3, c.fan.lv3)
        }),
        ({
            let curve = default_fan_curve();
            let v = |key: Seq<char>| value_of(settings, "fan_curve"@, key);
            &&& bool_given(v("enabled"@), curve.enabled, c.fan_curve.enabled)
            &&& percent_given(v("duty0"@), curve.duty0, c.fan_curve.duty0)
            &&& percent_given(v("duty1"@), curve.duty1, c.fan_curve.duty1)
            &&& percent_given(v("duty2"@), curve.duty2, c.fan_curve.duty2)
            &&& percent_given(v("duty3"@), curve.duty3, c.fan_curve.duty3)
            &&& match v("tail"@) {
                Some(text) => tail_in(text) == Some(c.fan_curve.tail),
                None => c.fan_curve.tail == curve.tail,
            }
            &&& percent_given(v("max_duty"@), curve.max_duty, c.fan_curve.max_duty)
            &&& percent_given(v("hysteresis"@), curve.hysteresis, c.fan_curve.hysteresis)
            &&& percent_given(v("ramp_down"@), curve.ramp_down, c.fan_curve.ramp_down)
        }),
        ({
            let drives = default_fan_drives();
            let v = |key: Seq<char>| value_of(settings, "fan_drives"@, key);
            &&& bool_given(v("enabled"@), drives.enabled, c.fan_drives.enabled)
            &&& c.fan_drives.devices == match v("devices"@) {
                Some(text) => csv(text),
                None => Seq::empty(),
            }
            &&& number_given(read, v("lv0"@), drives.thresholds.lv0, c.fan_drives.thresholds.lv0)
            &&& number_given(read, v("lv1"@), drives.thresholds.lv1, c.fan_drives.thresholds.lv1)
            &&& number_given(read, v("lv2"@), drives.thresholds.lv2, c.fan_drives.thresholds.lv2)
            &&& number_given(read, v("lv3"@), drives.thresholds.lv3, c.fan_drives.thresholds.lv3)
            &&& match v("poll_seconds"@) {
                Some(text) => positive_in(text) == Some(c.fan_drives.poll_seconds),
                None => c.fan_drives.poll_seconds == drives.poll_seconds,
            }
        }),
        ({
            let key = default_key();
            let v = |key: Seq<char>| value_of(settings, "key"@, key);
            &&& text_given(v("click"@), key.click, c.key.click)
            &&& text_given(v("twice"@), key.twice, c.key.twice)
            &&& text_given(v("press"@), key.press, c.key.press)
        }),
        number_given(read, value_of(settings, "time"@, "twice"@), default_time().twice, c.time.twice),
        number_given(read, value_of(settings, "time"@, "press"@), default_time().press, c.time.press),
        ({
            let oled = default_oled();
            let v = |key: Seq<char>| value_of(settings, "oled"@, key);
            &&& bool_given(v("rotate"@), oled.rotate, c.oled.rotate)
            &&& bool_given(v("f-temp"@), oled.f_temp, c.oled.f_temp)
            &&& bool_given(v("auto_slide"@), oled.auto_slide, c.oled.auto_slide)
            &&& number_given(
                read,
                v("auto_slide_time"@),
                oled.auto_slide_time,
                c.oled.auto_slide_time,
            )
            &&& number_given(read, v("sleep"@), oled.sleep, c.oled.sleep)
        }),
        c.disks == match value_of(settings, "disk"@, "extra"@) {
            Some(text) => csv(text),
            None => Seq::empty(),
        },
{
}

/// Settings that are accepted can be worked with: the temperatures of the
/// processor and of the drives are finite and rise, the duties of the curve do
/// not fall, all percentages are at most a hundred, and the drives are polled
/// with a pause.
pub proof fn accepted_settings_can_be_worked_with<F: Fn(&str) -> Option<Binary64>>(
    read: F,
    input: Seq<char>,
    c: ConfigView,
)
    requires
        config_in(read, input) == Ok::<ConfigView, ErrorView>(c),
    ensures
        c.fan.lv0.is_finite() && c.fan.lv1.is_finite() && c.fan.lv2.is_finite()
            && c.fan.lv3.is_finite(),
        c.fan.lv0.value() < c.fan.lv1.value() && c.fan.lv1.value() < c.fan.lv2.value()
            && c.fan.lv2.value() < c.fan.lv3.value(),
        c.fan_drives.thresholds.lv0.is_finite() && c.fan_drives.thresholds.lv1.is_finite()
            && c.fan_drives.thresholds.lv2.is_finite() && c.fan_drives.thresholds.lv3.is_finite(),
        c.fan_drives.thresholds.lv0.value() < c.fan_drives.thresholds.lv1.value()
            && c.fan_drives.thresholds.lv1.value() < c.fan_drives.thresholds.lv2.value()
            && c.fan_drives.thresholds.lv2.value() < c.fan_drives.thresholds.lv3.value(),
        c.fan_curve.duty0 <= c.fan_curve.duty1 && c.fan_curve.duty1 <= c.fan_curve.duty2
            && c.fan_curve.duty2 <= c.fan_curve.duty3,
        c.fan_curve.duty3 <= 100 && c.fan_curve.max_duty <= 100 && c.fan_curve.hysteresis <= 100
            && c.fan_curve.ramp_down <= 100,
        c.fan_drives.poll_seconds > 0,
{
}

/// Whether every value that is given for a documented key is of the kind that the
/// key takes.
pub open spec fn all_values_fit<F: Fn(&str) -> Option<Binary64>>(
    read: F,
    settings: Seq<SettingView>,
) -> bool {
    let fits_bool = |section: Seq<char>, key: Seq<char>|
        value_of(settings, section, key) matches Some(text) ==> bool_in(text) is Some;
    let fits_number = |section: Seq<char>, key: Seq<char>|
        value_of(settings, section, key) matches Some(text) ==> number_in(read, text) is Some;
    let fits_percent = |key: Seq<char>|
        value_of(settings, "fan_curve"@, key) matches Some(text) ==> percent_in(text) is Some;
    &&& fits_number("fan"@, "lv0"@) && fits_number("fan"@, "lv1"@) && fits_number(
        "fan"@,
        "lv2"@,
    ) && fits_number("fan"@, "lv3"@)
    &&& fits_bool("fan_curve"@, "enabled"@) && fits_percent("duty0"@) && fits_percent("duty1"@)
        && fits_percent("duty2"@) && fits_percent("duty3"@)
    &&& value_of(settings, "fan_curve"@, "tail"@) matches Some(text) ==> tail_in(text) is Some
    &&& fits_percent("max_duty"@) && fits_percent("hysteresis"@) && fits_percent("ramp_down"@)
    &&& fits_bool("fan_drives"@, "enabled"@)
    &&& fits_number("fan_drives"@, "lv0"@) && fits_number("fan_drives"@, "lv1"@) && fits_number(
        "fan_drives"@,
        "lv2"@,
    ) && fits_number("fan_drives"@, "lv3"@)
    &&& value_of(settings, "fan_drives"@, "poll_seconds"@) matches Some(text) ==> positive_in(text)
        is Some
    &&& fits_number("time"@, "twice"@) && fits_number("time"@, "press"@)
    &&& fits_bool("oled"@, "rotate"@) && fits_bool("oled"@, "f-temp"@) && fits_bool(
        "oled"@,
        "auto_slide"@,
    )
    &&& fits_number("oled"@, "auto_slide_time"@) && fits_number("oled"@, "sleep"@)
}

/// Nothing is refused without a reason: settings whose values fit, in which the
/// section of the fan curve has no other keys than it takes, are accepted or
/// refused for temperatures that do not rise or duties that fall; and a text of
/// which a line cannot be read is refused with the number of that line.
pub proof fn refusals_have_a_reason<F: Fn(&str) -> Option<Binary64>>(read: F, input: Seq<char>)
    ensures
        settings_in(input) matches Err((line, message)) ==> config_in(read, input) == Err::<
            ConfigView,
            ErrorView,
        >(ErrorView::Parse { line, message }),
        settings_in(input) matches Ok(settings) ==> (all_values_fit(read, settings) && (forall|
            i: int,
        |
            0 <= i < settings.len() && (#[trigger] settings[i]).section == "fan_curve"@
                ==> crate::config::is_curve_key(settings[i].key)) ==> match config_in(read, input) {
            Ok(_) => true,
            Err(error) => error is Thresholds || error is FanCurveDuties,
        }),
        settings_in(input) matches Ok(settings) ==> (!all_values_fit(read, settings) ==> (config_in(
            read,
            input,
        ) matches Err(error) && (error is Value || error is UnknownKey))),
{
    if let Ok(settings) = settings_in(input) {
        crate::config::stray_key_is_first(settings);
    }
}

/// Without settings the fan starts at 35 degrees of the processor, and rises at 40,
/// 45 and 50 degrees; drives, where they count, have ten degrees more. A second
/// click has 0.7 seconds, a long press takes 1.8 seconds, and pages slide every ten
/// seconds on a display that does not sleep.
pub proof fn default_temperatures_and_times()
    ensures
        default_fan().lv0.value() == 35 * one(),
        default_fan().lv1.value() == 40 * one(),
        default_fan().lv2.value() == 45 * one(),
        default_fan().lv3.value() == 50 * one(),
        ({
            let drives = default_fan_drives().thresholds;
            &&& drives.lv0.value() == default_fan().lv0.value() + 10 * one()
            &&& drives.lv1.value() == default_fan().lv1.value() + 10 * one()
            &&& drives.lv2.value() == default_fan().lv2.value() + 10 * one()
            &&& drives.lv3.value() == default_fan().lv3.value() + 10 * one()
        }),
        -(one() as int) < 1_000_000_000_000_000 * (10 * default_time().twice.value() - 7 * one())
            < one(),
        -(one() as int) < 1_000_000_000_000_000 * (10 * default_time().press.value() - 18 * one())
            < one(),
        default_oled().auto_slide_time.value() == 10 * one(),
        default_oled().sleep.value() == 0,
{
    lemma2_to64_rest();
    let fan = default_fan();
    let drives = default_fan_drives().thresholds;
    lemma_units(fan.lv0, 47, 0x11_8000_0000_0000, 0x8000_0000_0000);
    lemma_units(fan.lv1, 47, 0x14_0000_0000_0000, 0x8000_0000_0000);
    lemma_units(fan.lv2, 47, 0x16_8000_0000_0000, 0x8000_0000_0000);
    lemma_units(fan.lv3, 47, 0x19_0000_0000_0000, 0x8000_0000_0000);
    lemma_units(drives.lv2, 47, 0x1b_8000_0000_0000, 0x8000_0000_0000);
    lemma_units(drives.lv3, 47, 0x1e_0000_0000_0000, 0x8000_0000_0000);
    lemma_units(default_time().twice, 53, 0x16_6666_6666_6666, 0x20_0000_0000_0000);
    lemma_units(default_time().press, 52, 0x1c_cccc_cccc_cccd, 0x10_0000_0000_0000);
    lemma_units(default_oled().auto_slide_time, 49, 0x14_0000_0000_0000, 0x2_0000_0000_0000);
}

/// Without settings the fan goes in steps of a quarter, no drive counts, a click
/// slides the display, a second one switches the fan, and a long press does
/// nothing.
pub proof fn defaults_change_nothing()
    ensures
        ({
            let all = default_config();
            let curve = all.fan_curve;
            &&& !curve.enabled && curve.duty0 == 25 && curve.duty1 == 2 * curve.duty0 && curve.duty2
                == 3 * curve.duty0 && curve.duty3 == 4 * curve.duty0
            &&& curve.max_duty == 100 && curve.tail == FanCurveTail::Extrapolate
            &&& curve.hysteresis == 1 && curve.ramp_down == 0
            &&& !all.fan_drives.enabled && all.fan_drives.devices.len() == 0
            &&& all.fan_drives.poll_seconds == 30
            &&& all.key.click == "slider"@ && all.key.twice == "switch"@ && all.key.press == "none"@
            &&& !all.oled.rotate && !all.oled.f_temp && all.oled.auto_slide
            &&& all.disks.len() == 0
        }),
{
}

} // verus!
