//! Which pins and devices the board uses.
//!
//! The pins stand in a file of lines, each with a name, an equals sign and a
//! value. A line that starts with `#` is a comment.

use vstd::prelude::*;
use vstd::slice::slice_subrange;
use vstd::string::*;

use crate::config::ReadError;
use crate::ini::{get, setting_views, value_of, Setting, SettingView};
use crate::number::{parse_unsigned, unsigned};
use crate::quote::{quote, quoted};
use crate::split::{lines, split_lines, texts};
use crate::text::{
    all_space, chars_of, find, is_space, maybe_text, same_str, seek, seek_finds_first, string_of,
    trim, trimmed, trimming_cuts_space_around, Class,
};

verus! {

/// The pins and devices of a board, as far as they are given.
#[derive(Debug, Clone, PartialEq, Eq)]
pub struct PinMap {
    pub sda: Option<String>,
    pub scl: Option<String>,
    pub oled_reset: Option<String>,
    pub oled_i2c_device: Option<String>,
    pub button_chip: Option<String>,
    pub button_line: Option<u32>,
    pub fan_chip: Option<String>,
    pub fan_line: Option<u32>,
    pub hardware_pwm: bool,
    pub pwmchip: Option<String>,
}

/// A pin map as mathematical data.
pub struct PinMapView {
    pub sda: Option<Seq<char>>,
    pub scl: Option<Seq<char>>,
    pub oled_reset: Option<Seq<char>>,
    pub oled_i2c_device: Option<Seq<char>>,
    pub button_chip: Option<Seq<char>>,
    pub button_line: Option<u32>,
    pub fan_chip: Option<Seq<char>>,
    pub fan_line: Option<u32>,
    pub hardware_pwm: bool,
    pub pwmchip: Option<Seq<char>>,
}

impl View for PinMap {
    type V = PinMapView;

    open spec fn view(&self) -> PinMapView {
        PinMapView {
            sda: maybe_text(self.sda),
            scl: maybe_text(self.scl),
            oled_reset: maybe_text(self.oled_reset),
            oled_i2c_device: maybe_text(self.oled_i2c_device),
            button_chip: maybe_text(self.button_chip),
            button_line: self.button_line,
            fan_chip: maybe_text(self.fan_chip),
            fan_line: self.fan_line,
            hardware_pwm: self.hardware_pwm,
            pwmchip: maybe_text(self.pwmchip),
        }
    }
}

/// The pin map of a board of which nothing is given.
pub open spec fn empty_pin_map() -> PinMapView {
    PinMapView {
        sda: None,
        scl: None,
        oled_reset: None,
        oled_i2c_device: None,
        button_chip: None,
        button_line: None,
        fan_chip: None,
        fan_line: None,
        hardware_pwm: false,
        pwmchip: None,
    }
}

impl Default for PinMap {
    fn default() -> (r: Self)
        ensures
            r@ == empty_pin_map(),
    {
        PinMap {
            sda: None,
            scl: None,
            oled_reset: None,
            oled_i2c_device: None,
            button_chip: None,
            button_line: None,
            fan_chip: None,
            fan_line: None,
            hardware_pwm: false,
            pwmchip: None,
        }
    }
}

/// The name and the value on a line, if it has both.
pub open spec fn pin_on(line: Seq<char>) -> Option<SettingView> {
    let text = trimmed(line);
    let equals = seek(text, Class::One('='), 0);
    if text.len() == 0 || text[0] == '#' || equals == text.len() {
        None
    } else {
        Some(
            SettingView {
                section: Seq::empty(),
                key: trimmed(text.take(equals)),
                value: trimmed(text.skip(equals + 1)),
            },
        )
    }
}

/// The names and values in a text, in their order.
pub open spec fn pins_in(rows: Seq<Seq<char>>) -> Seq<SettingView>
    decreases rows.len(),
{
    if rows.len() == 0 {
        Seq::empty()
    } else {
        match pin_on(rows.last()) {
            Some(pin) => pins_in(rows.drop_last()).push(pin),
            None => pins_in(rows.drop_last()),
        }
    }
}

fn read_pin(line: &[char]) -> (r: Option<Setting>)
    ensures
        match r {
            Some(pin) => pin_on(line@) == Some(pin@),
            None => pin_on(line@) is None,
        },
{
    let text = trim(line);
    if text.len() == 0 || text[0] == '#' {
        return None;
    }
    let equals: usize = find(text, Class::One('='), 0);
    if equals == text.len() {
        return None;
    }
    let before = slice_subrange(text, 0, equals);
    let after = slice_subrange(text, equals + 1, text.len());
    assert(before@ == text@.take(equals as int));
    assert(after@ == text@.skip(equals + 1));
    let section = String::new();
    assert(section@ == Seq::<char>::empty());
    Some(Setting { section, key: string_of(trim(before)), value: string_of(trim(after)) })
}

/// The value of a name: the last that was given, unless it is empty.
pub open spec fn pin_value(pins: Seq<SettingView>, name: Seq<char>) -> Option<Seq<char>> {
    match value_of(pins, Seq::empty(), name) {
        Some(value) => if value.len() > 0 {
            Some(value)
        } else {
            None
        },
        None => None,
    }
}

fn get_pin(pins: &Vec<Setting>, name: &str) -> (r: Option<String>)
    ensures
        maybe_text(r) == pin_value(setting_views(pins@), name@),
{
    proof {
        reveal_strlit("");
        assert(""@ =~= Seq::<char>::empty());
    }
    match get(pins, "", name) {
        Some(value) => {
            let chars = chars_of(value.as_str());
            if chars.len() > 0 {
                Some(value.clone())
            } else {
                None
            }
        },
        None => None,
    }
}

/// The value of a name that stands for a line, where `Err` holds what is not the
/// number of one.
pub open spec fn line_value(pins: Seq<SettingView>, name: Seq<char>) -> Result<Option<u32>, Seq<char>> {
    match pin_value(pins, name) {
        Some(text) => match unsigned(text, u32::MAX as int) {
            Some(n) => Ok(Some(n as u32)),
            None => Err("invalid "@ + name + " value "@ + quoted(text)),
        },
        None => Ok(None),
    }
}

fn get_line(pins: &Vec<Setting>, name: &str) -> (r: Result<Option<u32>, String>)
    ensures
        match r {
            Ok(line) => line_value(setting_views(pins@), name@) == Ok::<Option<u32>, Seq<char>>(
                line,
            ),
            Err(error) => line_value(setting_views(pins@), name@) == Err::<Option<u32>, Seq<char>>(
                error@,
            ),
        },
{
    match get_pin(pins, name) {
        Some(text) => {
            let digits = chars_of(text.as_str());
            match parse_unsigned(&digits, u32::MAX as u64) {
                Some(n) => Ok(Some(n as u32)),
                None => {
                    let mut error = "invalid ".to_owned();
                    error.append(name);
                    error.append(" value ");
                    error.append(quote(text.as_str()).as_str());
                    Err(error)
                },
            }
        },
        None => Ok(None),
    }
}

/// What a text says of the pins, or what is wrong with it: a line that is not a
/// number.
pub open spec fn pin_map_in(input: Seq<char>) -> Result<PinMapView, Seq<char>> {
    let pins = pins_in(lines(input));
    match (line_value(pins, "FAN_LINE"@), line_value(pins, "BUTTON_LINE"@)) {
        (Err(error), _) => Err(error),
        (Ok(_), Err(error)) => Err(error),
        (Ok(fan_line), Ok(button_line)) => Ok(
            PinMapView {
                sda: pin_value(pins, "SDA"@),
                scl: pin_value(pins, "SCL"@),
                oled_reset: pin_value(pins, "OLED_RESET"@),
                oled_i2c_device: pin_value(pins, "OLED_I2C_DEVICE"@),
                button_chip: pin_value(pins, "BUTTON_CHIP"@),
                button_line,
                fan_chip: pin_value(pins, "FAN_CHIP"@),
                fan_line,
                hardware_pwm: pin_value(pins, "HARDWARE_PWM"@) == Some("1"@),
                pwmchip: pin_value(pins, "PWMCHIP"@),
            },
        ),
    }
}

impl PinMap {
    /// Reads a pin map from a text.
    pub fn parse(input: &str) -> (r: Result<PinMap, String>)
        ensures
            match r {
                Ok(map) => pin_map_in(input@) == Ok::<PinMapView, Seq<char>>(map@),
                Err(error) => pin_map_in(input@) == Err::<PinMapView, Seq<char>>(error@),
            },
    {
        let chars = chars_of(input);
        let rows = split_lines(&chars);
        let ghost all = lines(input@);
        let mut pins: Vec<Setting> = Vec::new();
        assert(setting_views(pins@) == pins_in(all.take(0)));
        for i in 0..rows.len()
            invariant
                texts(rows@) == all,
                setting_views(pins@) == pins_in(all.take(i as int)),
        {
            assert(all.take(i + 1).drop_last() == all.take(i as int));
            assert(all.take(i + 1).last() == rows@[i as int]@);
            let ghost before = setting_views(pins@);
            if let Some(pin) = read_pin(rows[i]) {
                pins.push(pin);
                assert(setting_views(pins@) == before.push(pin@));
            }
        }
        assert(all.take(all.len() as int) == all);
        let fan_line: Option<u32> = get_line(&pins, "FAN_LINE")?;
        let button_line: Option<u32> = get_line(&pins, "BUTTON_LINE")?;
        let hardware_pwm = match get_pin(&pins, "HARDWARE_PWM") {
            Some(text) => same_str(text.as_str(), "1"),
            None => false,
        };
        Ok(
            PinMap {
                sda: get_pin(&pins, "SDA"),
                scl: get_pin(&pins, "SCL"),
                oled_reset: get_pin(&pins, "OLED_RESET"),
                oled_i2c_device: get_pin(&pins, "OLED_I2C_DEVICE"),
                button_chip: get_pin(&pins, "BUTTON_CHIP"),
                button_line,
                fan_chip: get_pin(&pins, "FAN_CHIP"),
                fan_line,
                hardware_pwm,
                pwmchip: get_pin(&pins, "PWMCHIP"),
            },
        )
    }

    /// Reads a pin map from what a file holds; where there is no file, nothing is
    /// given.
    pub fn from_file_or_empty(contents: Result<String, ReadError>) -> (r: Result<PinMap, String>)
        ensures
            match contents {
                Ok(text) => match r {
                    Ok(map) => pin_map_in(text@) == Ok::<PinMapView, Seq<char>>(map@),
                    Err(error) => pin_map_in(text@) == Err::<PinMapView, Seq<char>>(error@),
                },
                Err(ReadError::NotFound) => r matches Ok(map) && map@ == empty_pin_map(),
                Err(ReadError::Other(reason)) => r == Err::<PinMap, String>(reason),
            },
    {
        match contents {
            Ok(text) => PinMap::parse(text.as_str()),
            Err(ReadError::NotFound) => Ok(PinMap::default()),
            Err(ReadError::Other(reason)) => Err(reason),
        }
    }
}

proof fn lemma_names_differ()
    ensures
        "SDA"@ != "SCL"@,
        "SDA"@ != "OLED_RESET"@,
        "SDA"@ != "OLED_I2C_DEVICE"@,
        "SDA"@ != "BUTTON_CHIP"@,
        "SDA"@ != "BUTTON_LINE"@,
        "SDA"@ != "FAN_CHIP"@,
        "SDA"@ != "FAN_LINE"@,
        "SDA"@ != "HARDWARE_PWM"@,
        "SDA"@ != "PWMCHIP"@,
        "SCL"@ != "OLED_RESET"@,
        "SCL"@ != "OLED_I2C_DEVICE"@,
        "SCL"@ != "BUTTON_CHIP"@,
        "SCL"@ != "BUTTON_LINE"@,
        "SCL"@ != "FAN_CHIP"@,
        "SCL"@ != "FAN_LINE"@,
        "SCL"@ != "HARDWARE_PWM"@,
        "SCL"@ != "PWMCHIP"@,
        "OLED_RESET"@ != "OLED_I2C_DEVICE"@,
        "OLED_RESET"@ != "BUTTON_CHIP"@,
        "OLED_RESET"@ != "BUTTON_LINE"@,
        "OLED_RESET"@ != "FAN_CHIP"@,
        "OLED_RESET"@ != "FAN_LINE"@,
        "OLED_RESET"@ != "HARDWARE_PWM"@,
        "OLED_RESET"@ != "PWMCHIP"@,
        "OLED_I2C_DEVICE"@ != "BUTTON_CHIP"@,
        "OLED_I2C_DEVICE"@ != "BUTTON_LINE"@,
        "OLED_I2C_DEVICE"@ != "FAN_CHIP"@,
        "OLED_I2C_DEVICE"@ != "FAN_LINE"@,
        "OLED_I2C_DEVICE"@ != "HARDWARE_PWM"@,
        "OLED_I2C_DEVICE"@ != "PWMCHIP"@,
        "BUTTON_CHIP"@ != "BUTTON_LINE"@,
        "BUTTON_CHIP"@ != "FAN_CHIP"@,
        "BUTTON_CHIP"@ != "FAN_LINE"@,
        "BUTTON_CHIP"@ != "HARDWARE_PWM"@,
        "BUTTON_CHIP"@ != "PWMCHIP"@,
        "BUTTON_LINE"@ != "FAN_CHIP"@,
        "BUTTON_LINE"@ != "FAN_LINE"@,
        "BUTTON_LINE"@ != "HARDWARE_PWM"@,
        "BUTTON_LINE"@ != "PWMCHIP"@,
        "FAN_CHIP"@ != "FAN_LINE"@,
        "FAN_CHIP"@ != "HARDWARE_PWM"@,
        "FAN_CHIP"@ != "PWMCHIP"@,
        "FAN_LINE"@ != "HARDWARE_PWM"@,
        "FAN_LINE"@ != "PWMCHIP"@,
        "HARDWARE_PWM"@ != "PWMCHIP"@,
{
    reveal_strlit("SDA");
    reveal_strlit("SCL");
    reveal_strlit("OLED_RESET");
    reveal_strlit("OLED_I2C_DEVICE");
    reveal_strlit("BUTTON_CHIP");
    reveal_strlit("BUTTON_LINE");
    reveal_strlit("FAN_CHIP");
    reveal_strlit("FAN_LINE");
    reveal_strlit("HARDWARE_PWM");
    reveal_strlit("PWMCHIP");
    assert("SDA"@.len() == 3);
    assert("SCL"@.len() == 3);
    assert("OLED_RESET"@.len() == 10);
    assert("OLED_I2C_DEVICE"@.len() == 15);
    assert("BUTTON_CHIP"@.len() == 11);
    assert("BUTTON_LINE"@.len() == 11);
    assert("FAN_CHIP"@.len() == 8);
    assert("FAN_LINE"@.len() == 8);
    assert("HARDWARE_PWM"@.len() == 12);
    assert("PWMCHIP"@.len() == 7);
    assert("SDA"@[1] == 'D');
    assert("SCL"@[1] == 'C');
    assert("BUTTON_CHIP"@[7] == 'C');
    assert("BUTTON_LINE"@[7] == 'L');
    assert("FAN_CHIP"@[4] == 'C');
    assert("FAN_LINE"@[4] == 'L');
}

/// A line with a name, an equals sign and a value gives the value of the name;
/// white space around any of them does not count, and the value may have equals
/// signs in it. A line that starts with `#`, a blank line and one without an
/// equals sign give nothing.
pub proof fn lines_give_names_and_values(
    before: Seq<char>,
    name: Seq<char>,
    left: Seq<char>,
    right: Seq<char>,
    value: Seq<char>,
    after: Seq<char>,
    line: Seq<char>,
)
    requires
        all_space(before),
        all_space(left),
        all_space(right),
        all_space(after),
        name.len() > 0,
        !is_space(name[0]) && !is_space(name.last()),
        name[0] != '#',
        !name.contains('='),
        value.len() > 0,
        !is_space(value[0]) && !is_space(value.last()),
    ensures
        pin_on(before + (name + left + seq!['='] + right + value) + after) == Some(
            SettingView { section: Seq::empty(), key: name, value },
        ),
        line.len() > 0 && !is_space(line.last()) ==> pin_on(before + (seq!['#'] + line) + after)
            is None,
        pin_on(before) is None,
        pin_on(before + name + after) is None,
{
    let text = name + left + seq!['='] + right + value;
    assert(text[0] == name[0] && text.last() == value.last());
    trimming_cuts_space_around(before, text, after);
    let equals = (name.len() + left.len()) as int;
    assert forall|i: int| 0 <= i < equals implies !Class::One('=').holds(#[trigger] text[i]) by {
        if i < name.len() {
            assert(name.contains(name[i]));
        } else {
            assert(is_space(left[i - name.len()]));
        }
    }
    assert(text[equals] == '=');
    seek_finds_first(text, Class::One('='), 0, equals);
    let none = Seq::<char>::empty();
    assert(text.take(equals) =~= none + name + left);
    trimming_cuts_space_around(none, name, left);
    assert(text.skip(equals + 1) =~= right + value + none);
    trimming_cuts_space_around(right, value, none);
    if line.len() > 0 && !is_space(line.last()) {
        let comment = seq!['#'] + line;
        assert(comment[0] == '#' && comment.last() == line.last());
        trimming_cuts_space_around(before, comment, after);
    }
    trimming_cuts_space_around(before, none, none);
    assert(before + none + none =~= before);
    trimming_cuts_space_around(before, name, after);
    assert forall|i: int| 0 <= i < name.len() implies !Class::One('=').holds(#[trigger] name[i]) by {
        assert(name.contains(name[i]));
    }
    seek_finds_first(name, Class::One('='), 0, name.len() as int);
}

/// A name in a file sets one thing, and leaves all else as where nothing is given.
/// Names that are not known, and empty values, set nothing; what is not the number
/// of a line is refused with the name and the value.
pub proof fn names_set_one_thing(input: Seq<char>, name: Seq<char>, value: Seq<char>)
    requires
        pins_in(lines(input)) == seq![SettingView { section: Seq::empty(), key: name, value }],
    ensures
        ({
            let none = empty_pin_map();
            let given = if value.len() > 0 {
                Some(value)
            } else {
                None
            };
            &&& name == "SDA"@ ==> pin_map_in(input) == Ok::<PinMapView, Seq<char>>(
                PinMapView { sda: given, ..none },
            )
            &&& name == "SCL"@ ==> pin_map_in(input) == Ok::<PinMapView, Seq<char>>(
                PinMapView { scl: given, ..none },
            )
            &&& name == "OLED_RESET"@ ==> pin_map_in(input) == Ok::<PinMapView, Seq<char>>(
                PinMapView { oled_reset: given, ..none },
            )
            &&& name == "OLED_I2C_DEVICE"@ ==> pin_map_in(input) == Ok::<PinMapView, Seq<char>>(
                PinMapView { oled_i2c_device: given, ..none },
            )
            &&& name == "BUTTON_CHIP"@ ==> pin_map_in(input) == Ok::<PinMapView, Seq<char>>(
                PinMapView { button_chip: given, ..none },
            )
            &&& name == "FAN_CHIP"@ ==> pin_map_in(input) == Ok::<PinMapView, Seq<char>>(
                PinMapView { fan_chip: given, ..none },
            )
            &&& name == "PWMCHIP"@ ==> pin_map_in(input) == Ok::<PinMapView, Seq<char>>(
                PinMapView { pwmchip: given, ..none },
            )
            &&& name == "BUTTON_LINE"@ && value.len() > 0 ==> match unsigned(value, u32::MAX as int) {
                Some(n) => pin_map_in(input) == Ok::<PinMapView, Seq<char>>(
                    PinMapView { button_line: Some(n as u32), ..none },
                ),
                None => pin_map_in(input) == Err::<PinMapView, Seq<char>>(
                    "invalid "@ + name + " value "@ + quoted(value),
                ),
            }
            &&& name == "FAN_LINE"@ && value.len() > 0 ==> match unsigned(value, u32::MAX as int) {
                Some(n) => pin_map_in(input) == Ok::<PinMapView, Seq<char>>(
                    PinMapView { fan_line: Some(n as u32), ..none },
                ),
                None => pin_map_in(input) == Err::<PinMapView, Seq<char>>(
                    "invalid "@ + name + " value "@ + quoted(value),
                ),
            }
            &&& name == "HARDWARE_PWM"@ ==> pin_map_in(input) == Ok::<PinMapView, Seq<char>>(
                PinMapView { hardware_pwm: value == "1"@, ..none },
            )
            &&& name != "SDA"@ && name != "SCL"@ && name != "OLED_RESET"@ && name != "OLED_I2C_DEVICE"@ && name != "BUTTON_CHIP"@ && name != "BUTTON_LINE"@ && name != "FAN_CHIP"@ && name != "FAN_LINE"@ && name != "HARDWARE_PWM"@ && name != "PWMCHIP"@ ==> pin_map_in(input) == Ok::<
                PinMapView,
                Seq<char>,
            >(none)
            &&& value.len() == 0 ==> pin_map_in(input) == Ok::<PinMapView, Seq<char>>(none)
        }),
{
    lemma_names_differ();
    let pins = seq![SettingView { section: Seq::empty(), key: name, value }];
    assert(pins.drop_last() =~= Seq::<SettingView>::empty());
    assert forall|k: Seq<char>| #[trigger] value_of(pins, Seq::empty(), k) == if k == name {
        Some(value)
    } else {
        None
    } by {
        assert(value_of(Seq::<SettingView>::empty(), Seq::empty(), k) is None);
    }
    reveal_strlit("1");
}

/// The value that a file gives for a name: the last one, unless it is empty.
pub open spec fn given_pin(input: Seq<char>, name: Seq<char>) -> Option<Seq<char>> {
    match value_of(pins_in(lines(input)), Seq::empty(), name) {
        Some(value) => if value.len() > 0 {
            Some(value)
        } else {
            None
        },
        None => None,
    }
}

/// A pin map that is accepted is what the file says: each of its values is the one
/// that was last given for its name, whatever the other values are.
pub proof fn accepted_pins_are_as_given(input: Seq<char>, map: PinMapView)
    requires
        pin_map_in(input) == Ok::<PinMapView, Seq<char>>(map),
    ensures
        map.sda == given_pin(input, "SDA"@),
        map.scl == given_pin(input, "SCL"@),
        map.oled_reset == given_pin(input, "OLED_RESET"@),
        map.oled_i2c_device == given_pin(input, "OLED_I2C_DEVICE"@),
        map.button_chip == given_pin(input, "BUTTON_CHIP"@),
        map.fan_chip == given_pin(input, "FAN_CHIP"@),
        map.pwmchip == given_pin(input, "PWMCHIP"@),
        match given_pin(input, "BUTTON_LINE"@) {
            Some(text) => map.button_line matches Some(n) && unsigned(text, u32::MAX as int) == Some(
                n as int,
            ),
            None => map.button_line is None,
        },
        match given_pin(input, "FAN_LINE"@) {
            Some(text) => map.fan_line matches Some(n) && unsigned(text, u32::MAX as int) == Some(
                n as int,
            ),
            None => map.fan_line is None,
        },
        map.hardware_pwm <==> given_pin(input, "HARDWARE_PWM"@) == Some("1"@),
{
}

/// Lines give their names and values in their order: a further line adds what it
/// gives at the end.
pub proof fn lines_are_read_in_order(rows: Seq<Seq<char>>, line: Seq<char>)
    ensures
        pins_in(rows.push(line)) == match pin_on(line) {
            Some(pin) => pins_in(rows).push(pin),
            None => pins_in(rows),
        },
        pins_in(Seq::empty()).len() == 0,
{
    assert(rows.push(line).drop_last() =~= rows);
}

} // verus!
