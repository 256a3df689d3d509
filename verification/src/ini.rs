//! Settings in sections, as text.
//!
//! A line holds the name of a section in square brackets, or a key and a value
//! with an equals sign between them. What follows a `#` or a `;` is a comment.

use vstd::prelude::*;
use vstd::slice::slice_subrange;

use crate::split::{
    line_feeds_end_lines, lines, split_lines, text_without_line_feed_is_one_line, texts,
};
use crate::text::{
    all_space, chars_of, find, is_space, lower_text, lowered, same, seek,
    seek_finds_first, string_of, trim, trimmed,
    trimming_cuts_space_around, Class,
};

verus! {

/// A value that the text gives for a key of a section.
#[derive(Debug, Clone, PartialEq, Eq)]
pub struct Setting {
    pub section: String,
    pub key: String,
    pub value: String,
}

/// A setting as mathematical data.
pub struct SettingView {
    pub section: Seq<char>,
    pub key: Seq<char>,
    pub value: Seq<char>,
}

impl View for Setting {
    type V = SettingView;

    open spec fn view(&self) -> SettingView {
        SettingView { section: self.section@, key: self.key@, value: self.value@ }
    }
}

/// Settings as mathematical data.
pub open spec fn setting_views(settings: Seq<Setting>) -> Seq<SettingView> {
    Seq::new(settings.len(), |i: int| settings[i]@)
}

/// A line that cannot be read, by its number, and what is wrong with it.
#[derive(Debug, Clone, PartialEq, Eq)]
pub struct LineError {
    pub line: usize,
    pub message: String,
}

/// The part of a line before its comment.
pub open spec fn without_comment(line: Seq<char>) -> Seq<char> {
    line.take(seek(line, Class::Comment, 0))
}

/// Cuts the comment off a line.
pub fn strip_comment<'a>(line: &'a [char]) -> (r: &'a [char])
    ensures
        r@ == without_comment(line@),
{
    let end: usize = find(line, Class::Comment, 0);
    let part = slice_subrange(line, 0, end);
    assert(part@ == line@.take(end as int));
    part
}

/// What a line says.
pub enum LineView {
    /// Nothing.
    Blank,
    /// The name of a section.
    Section(Seq<char>),
    /// A key and its value.
    Pair(Seq<char>, Seq<char>),
    /// The line cannot be read.
    Wrong(Seq<char>),
}

/// What a line says, within a section or before the first.
pub open spec fn line_of(line: Seq<char>, in_section: bool) -> LineView {
    let text = trimmed(without_comment(line));
    let equals = seek(text, Class::One('='), 0);
    if text.len() == 0 {
        LineView::Blank
    } else if text[0] == '[' {
        let name = lowered(trimmed(text.subrange(1, text.len() - 1)));
        if text.last() != ']' {
            LineView::Wrong("unterminated section header"@)
        } else if name.len() == 0 {
            LineView::Wrong("empty section header"@)
        } else {
            LineView::Section(name)
        }
    } else if !in_section {
        LineView::Wrong("key/value appears before any section"@)
    } else if equals == text.len() {
        LineView::Wrong("expected key = value"@)
    } else {
        let key = lowered(trimmed(text.take(equals)));
        if key.len() == 0 {
            LineView::Wrong("empty key"@)
        } else {
            LineView::Pair(key, trimmed(text.skip(equals + 1)))
        }
    }
}

/// What has been read of a text: the section that the next line belongs to, and
/// the settings so far.
pub struct IniView {
    pub section: Seq<char>,
    pub settings: Seq<SettingView>,
}

/// What has been read of the first `n` lines, or the number of the first line
/// that cannot be read and what is wrong with it.
pub open spec fn reading(rows: Seq<Seq<char>>, n: int) -> Result<IniView, (int, Seq<char>)>
    decreases n,
{
    if n <= 0 {
        Ok(IniView { section: Seq::empty(), settings: Seq::empty() })
    } else {
        match reading(rows, n - 1) {
            Err(error) => Err(error),
            Ok(state) => match line_of(rows[n - 1], state.section.len() > 0) {
                LineView::Blank => Ok(state),
                LineView::Section(name) => Ok(IniView { section: name, settings: state.settings }),
                LineView::Pair(key, value) => Ok(
                    IniView {
                        section: state.section,
                        settings: state.settings.push(
                            SettingView { section: state.section, key, value },
                        ),
                    },
                ),
                LineView::Wrong(message) => Err((n, message)),
            },
        }
    }
}

/// The settings in a text, in their order, or the number of the first line that
/// cannot be read and what is wrong with it.
pub open spec fn settings_in(input: Seq<char>) -> Result<Seq<SettingView>, (int, Seq<char>)> {
    match reading(lines(input), lines(input).len() as int) {
        Ok(state) => Ok(state.settings),
        Err(error) => Err(error),
    }
}

/// What a line says, with the parts of the line.
enum Line {
    Blank,
    Section(Vec<char>),
    Pair(Vec<char>, String),
    Wrong(&'static str),
}

fn read_line(line: &[char], in_section: bool) -> (r: Line)
    ensures
        match r {
            Line::Blank => line_of(line@, in_section) == LineView::Blank,
            Line::Section(name) => line_of(line@, in_section) == LineView::Section(name@),
            Line::Pair(key, value) => line_of(line@, in_section) == LineView::Pair(key@, value@),
            Line::Wrong(message) => line_of(line@, in_section) == LineView::Wrong(message@),
        },
{
    let text = trim(strip_comment(line));
    if text.len() == 0 {
        return Line::Blank;
    }
    if text[0] == '[' {
        if text[text.len() - 1] != ']' {
            return Line::Wrong("unterminated section header");
        }
        let name = lower_text(trim(slice_subrange(text, 1, text.len() - 1)));
        if name.len() == 0 {
            return Line::Wrong("empty section header");
        }
        return Line::Section(name);
    }
    if !in_section {
        return Line::Wrong("key/value appears before any section");
    }
    let equals: usize = find(text, Class::One('='), 0);
    if equals == text.len() {
        return Line::Wrong("expected key = value");
    }
    let before = slice_subrange(text, 0, equals);
    let after = slice_subrange(text, equals + 1, text.len());
    assert(before@ == text@.take(equals as int));
    assert(after@ == text@.skip(equals + 1));
    let key = lower_text(trim(before));
    if key.len() == 0 {
        return Line::Wrong("empty key");
    }
    Line::Pair(key, string_of(trim(after)))
}

/// Reads the settings in a text.
pub fn parse_ini(input: &str) -> (r: Result<Vec<Setting>, LineError>)
    ensures
        match r {
            Ok(settings) => settings_in(input@) == Ok::<Seq<SettingView>, (int, Seq<char>)>(
                setting_views(settings@),
            ),
            Err(error) => settings_in(input@) == Err::<Seq<SettingView>, (int, Seq<char>)>(
                (error.line as int, error.message@),
            ),
        },
{
    let chars = chars_of(input);
    let rows = split_lines(&chars);
    let ghost all = lines(input@);
    let mut settings: Vec<Setting> = Vec::new();
    let mut section: Vec<char> = Vec::new();
    assert(setting_views(settings@) == Seq::<SettingView>::empty());
    let count: usize = rows.len();
    for i in 0..count
        invariant
            count == rows@.len(),
            texts(rows@) == all,
            reading(all, i as int) == Ok::<IniView, (int, Seq<char>)>(
                IniView { section: section@, settings: setting_views(settings@) },
            ),
            all == lines(input@),
    {
        let ghost before = setting_views(settings@);
        assert(all[i as int] == rows@[i as int]@);
        match read_line(rows[i], section.len() > 0) {
            Line::Blank => {},
            Line::Section(name) => {
                section = name;
            },
            Line::Pair(key, value) => {
                settings.push(
                    Setting { section: string_of(&section), key: string_of(&key), value },
                );
                assert(setting_views(settings@) == before.push(settings@.last()@));
            },
            Line::Wrong(message) => {
                proof {
                    lemma_reading_stops(all, i + 1, all.len() as int);
                }
                return Err(LineError { line: i + 1, message: message.to_owned() });
            },
        }
    }
    Ok(settings)
}

/// What is wrong with the first lines stays wrong.
proof fn lemma_reading_stops(rows: Seq<Seq<char>>, n: int, m: int)
    requires
        n <= m,
        reading(rows, n) is Err,
    ensures
        reading(rows, m) == reading(rows, n),
    decreases m - n,
{
    if n < m {
        lemma_reading_stops(rows, n, m - 1);
        if m <= 0 {
            assert(reading(rows, n) is Ok);
        }
    }
}

/// The value of a key of a section: the last that was given.
pub open spec fn value_of(settings: Seq<SettingView>, section: Seq<char>, key: Seq<char>) -> Option<
    Seq<char>,
>
    decreases settings.len(),
{
    if settings.len() == 0 {
        None
    } else if settings.last().section == section && settings.last().key == key {
        Some(settings.last().value)
    } else {
        value_of(settings.drop_last(), section, key)
    }
}

/// Looks for the value of a key of a section.
pub fn get<'a>(settings: &'a Vec<Setting>, section: &str, key: &str) -> (r: Option<&'a String>)
    ensures
        match r {
            Some(value) => value_of(setting_views(settings@), section@, key@) == Some(value@),
            None => value_of(setting_views(settings@), section@, key@) is None,
        },
{
    let ghost all = setting_views(settings@);
    let section_chars = chars_of(section);
    let key_chars = chars_of(key);
    let mut i: usize = settings.len();
    assert(all.take(i as int) == all);
    while i > 0
        invariant
            i <= settings@.len(),
            all == setting_views(settings@),
            section_chars@ == section@,
            key_chars@ == key@,
            value_of(all, section@, key@) == value_of(all.take(i as int), section@, key@),
        decreases i,
    {
        i = i - 1;
        let setting = &settings[i];
        assert(all.take(i + 1).last() == setting@);
        assert(all.take(i + 1).drop_last() == all.take(i as int));
        let own_section = chars_of(setting.section.as_str());
        let own_key = chars_of(setting.key.as_str());
        if same(&own_section, &section_chars) && same(&own_key, &key_chars) {
            return Some(&setting.value);
        }
    }
    None
}

/// Where a key is given more than once in a section, the last value counts.
pub proof fn last_value_counts(settings: Seq<SettingView>, later: SettingView)
    ensures
        value_of(settings.push(later), later.section, later.key) == Some(later.value),
        forall|section: Seq<char>, key: Seq<char>|
            section != later.section || key != later.key ==> #[trigger] value_of(
                settings.push(later),
                section,
                key,
            ) == value_of(settings, section, key),
{
    assert(settings.push(later).drop_last() == settings);
}

/// A value that is found was given by one of the settings.
pub proof fn value_was_given(settings: Seq<SettingView>, section: Seq<char>, key: Seq<char>)
    ensures
        match value_of(settings, section, key) {
            Some(value) => settings.contains(SettingView { section, key, value }),
            None => forall|i: int|
                0 <= i < settings.len() ==> (#[trigger] settings[i]).section != section
                    || settings[i].key != key,
        },
    decreases settings.len(),
{
    if settings.len() > 0 {
        value_was_given(settings.drop_last(), section, key);
        let last = settings.last();
        if last.section == section && last.key == key {
            assert(settings[settings.len() - 1] == SettingView { section, key, value: last.value });
        } else {
            match value_of(settings.drop_last(), section, key) {
                Some(value) => {
                    let wanted = SettingView { section, key, value };
                    let i = choose|i: int|
                        0 <= i < settings.drop_last().len() && settings.drop_last()[i] == wanted;
                    assert(settings[i] == wanted);
                },
                None => {
                    assert forall|i: int| 0 <= i < settings.len() implies (
                    #[trigger] settings[i]).section != section || settings[i].key != key by {
                        if i < settings.len() - 1 {
                            assert(settings.drop_last()[i] == settings[i]);
                        }
                    }
                },
            }
        }
    }
}

/// What follows the first `#` or `;` of a line does not count.
pub proof fn comments_do_not_count(line: Seq<char>, comment: Seq<char>, in_section: bool)
    requires
        !line.contains('#'),
        !line.contains(';'),
        comment.len() > 0,
        comment[0] == '#' || comment[0] == ';',
    ensures
        line_of(line + comment, in_section) == line_of(line, in_section),
{
    let s = line + comment;
    let at = line.len() as int;
    assert forall|i: int| 0 <= i < at implies !Class::Comment.holds(#[trigger] s[i]) by {
        assert(line.contains(line[i]));
    }
    assert(s[at] == comment[0]);
    seek_finds_first(s, Class::Comment, 0, at);
    assert(s.take(at) =~= line);
    assert forall|i: int| 0 <= i < at implies !Class::Comment.holds(#[trigger] line[i]) by {
        assert(line.contains(line[i]));
    }
    seek_finds_first(line, Class::Comment, 0, at);
    assert(line.take(at) =~= line);
}

proof fn lemma_without_comment(line: Seq<char>)
    requires
        !line.contains('#'),
        !line.contains(';'),
    ensures
        without_comment(line) == line,
{
    assert forall|i: int| 0 <= i < line.len() implies !Class::Comment.holds(#[trigger] line[i]) by {
        assert(line.contains(line[i]));
    }
    seek_finds_first(line, Class::Comment, 0, line.len() as int);
    assert(line.take(line.len() as int) =~= line);
}

/// Whether a text can stand in a setting as it is: it has no white space around
/// it, and neither comments nor line feeds in it.
pub open spec fn is_clean(text: Seq<char>) -> bool {
    &&& text.len() > 0 ==> !is_space(text[0]) && !is_space(text.last())
    &&& !text.contains('#') && !text.contains(';') && !text.contains('\n')
}

/// A name in square brackets opens a section, in any case of its letters and with
/// any white space around it and around the brackets.
pub proof fn headers_open_sections(
    before: Seq<char>,
    left: Seq<char>,
    name: Seq<char>,
    right: Seq<char>,
    after: Seq<char>,
    in_section: bool,
)
    requires
        all_space(before),
        all_space(left),
        all_space(right),
        all_space(after),
        is_clean(name),
        name.len() > 0,
    ensures
        line_of(
            before + (seq!['['] + left + name + right + seq![']']) + after,
            in_section,
        ) == LineView::Section(lowered(name)),
{
    let text = seq!['['] + left + name + right + seq![']'];
    let line = before + text + after;
    assert forall|i: int| 0 <= i < line.len() implies line[i] != '#' && line[i] != ';' by {
        let n = before.len() as int;
        let l = left.len() as int;
        let m = name.len() as int;
        let r = right.len() as int;
        if i < n {
            assert(is_space(before[i]));
        } else if i < n + text.len() {
            let k = i - n;
            assert(line[i] == text[k]);
            if 1 <= k < 1 + l {
                assert(is_space(left[k - 1]));
            } else if 1 + l <= k < 1 + l + m {
                assert(name.contains(name[k - 1 - l]));
            } else if 1 + l + m <= k < 1 + l + m + r {
                assert(is_space(right[k - 1 - l - m]));
            }
        } else {
            assert(is_space(after[i - n - text.len()]));
        }
    }
    lemma_without_comment(line);
    trimming_cuts_space_around(before, text, after);
    assert(text.subrange(1, text.len() - 1) =~= left + name + right);
    trimming_cuts_space_around(left, name, right);
    assert(lowered(name).len() == name.len());
}

/// A key, an equals sign and a value make a setting of the section that is open;
/// the letters of the key may have any case, and white space around the line, the
/// key and the value does not count. A value may have equals signs in it.
pub proof fn pairs_give_key_and_value(
    before: Seq<char>,
    key: Seq<char>,
    left: Seq<char>,
    right: Seq<char>,
    value: Seq<char>,
    after: Seq<char>,
)
    requires
        all_space(before),
        all_space(left),
        all_space(right),
        all_space(after),
        is_clean(key),
        key.len() > 0,
        key[0] != '[',
        !key.contains('='),
        is_clean(value),
    ensures
        line_of(
            before + (key + left + seq!['='] + right + value) + after,
            true,
        ) == LineView::Pair(lowered(key), value),
{
    let full = key + left + seq!['='] + right + value;
    let line = before + full + after;
    // Without a value the white space on the right belongs to the end of the line.
    let (text, end) = if value.len() > 0 {
        (full, after)
    } else {
        (key + left + seq!['='], right + after)
    };
    assert(line =~= before + text + end);
    assert forall|i: int| 0 <= i < end.len() implies is_space(#[trigger] end[i]) by {
        if value.len() == 0 && i < right.len() {
            assert(is_space(right[i]));
        } else if value.len() == 0 {
            assert(is_space(after[i - right.len()]));
        } else {
            assert(is_space(after[i]));
        }
    }
    let n = before.len() as int;
    let m = key.len() as int;
    let l = left.len() as int;
    let r = right.len() as int;
    assert forall|i: int| 0 <= i < line.len() implies line[i] != '#' && line[i] != ';' by {
        if i < n {
            assert(is_space(before[i]));
        } else if i < n + full.len() {
            let k = i - n;
            assert(line[i] == full[k]);
            if k < m {
                assert(key.contains(key[k]));
            } else if k < m + l {
                assert(is_space(left[k - m]));
            } else if m + l + 1 <= k < m + l + 1 + r {
                assert(is_space(right[k - m - l - 1]));
            } else if k >= m + l + 1 + r {
                assert(value.contains(value[k - m - l - 1 - r]));
            }
        } else {
            assert(is_space(after[i - n - full.len()]));
        }
    }
    lemma_without_comment(line);
    assert(text[0] == key[0]);
    assert(text.last() == if value.len() > 0 {
        value.last()
    } else {
        '='
    });
    trimming_cuts_space_around(before, text, end);
    let equals = m + l;
    assert forall|i: int| 0 <= i < equals implies !Class::One('=').holds(#[trigger] text[i]) by {
        if i < m {
            assert(key.contains(key[i]));
        } else {
            assert(is_space(left[i - m]));
        }
    }
    assert(text[equals] == '=');
    seek_finds_first(text, Class::One('='), 0, equals);
    let none = Seq::<char>::empty();
    assert(text.take(equals) =~= none + key + left);
    trimming_cuts_space_around(none, key, left);
    if value.len() > 0 {
        assert(text.skip(equals + 1) =~= right + value + none);
        trimming_cuts_space_around(right, value, none);
    } else {
        assert(text.skip(equals + 1) =~= none + none + none);
        trimming_cuts_space_around(none, none, none);
        assert(value =~= none);
    }
    assert(lowered(key).len() == key.len());
}

/// The text that gives one key of one section a value.
pub open spec fn one_setting(section: Seq<char>, key: Seq<char>, value: Seq<char>) -> Seq<char> {
    seq!['['] + section + seq![']', '\n'] + key + seq![' ', '=', ' '] + value
}

/// A text that gives one key of one section a value gives that and nothing else.
pub proof fn one_setting_is_read(section: Seq<char>, key: Seq<char>, value: Seq<char>)
    requires
        is_clean(section),
        section.len() > 0,
        is_clean(key),
        key.len() > 0,
        key[0] != '[',
        !key.contains('='),
        is_clean(value),
    ensures
        settings_in(one_setting(section, key, value)) == Ok::<Seq<SettingView>, (int, Seq<char>)>(
            seq![SettingView { section: lowered(section), key: lowered(key), value }],
        ),
{
    let none = Seq::<char>::empty();
    let header = seq!['['] + section + seq![']'];
    let pair = key + seq![' ', '=', ' '] + value;
    let input = one_setting(section, key, value);
    assert(input =~= header + seq!['\n'] + pair);
    assert forall|i: int| 0 <= i < header.len() implies header[i] != '\n' by {
        if 1 <= i < 1 + section.len() {
            assert(section.contains(section[i - 1]));
        }
    }
    assert forall|i: int| 0 <= i < pair.len() implies pair[i] != '\n' by {
        if i < key.len() {
            assert(key.contains(key[i]));
        } else if i >= key.len() + 3 {
            assert(value.contains(value[i - key.len() - 3]));
        }
    }
    line_feeds_end_lines(header, pair);
    text_without_line_feed_is_one_line(pair);
    let rows = lines(input);
    assert(rows =~= seq![header, pair]);
    headers_open_sections(none, none, section, none, none, false);
    assert(none + (seq!['['] + none + section + none + seq![']']) + none =~= header);
    assert(lowered(section).len() == section.len());
    let space = seq![' '];
    pairs_give_key_and_value(none, key, space, space, value, none);
    assert(none + (key + space + seq!['='] + space + value) + none =~= pair);
    reveal_with_fuel(reading, 3);
    assert(reading(rows, 1) == Ok::<IniView, (int, Seq<char>)>(
        IniView { section: lowered(section), settings: Seq::empty() },
    ));
    let setting = SettingView { section: lowered(section), key: lowered(key), value };
    assert(reading(rows, 2) == Ok::<IniView, (int, Seq<char>)>(
        IniView {
            section: lowered(section),
            settings: Seq::<SettingView>::empty().push(setting),
        },
    ));
    assert(Seq::<SettingView>::empty().push(setting) =~= seq![setting]);
}

proof fn lemma_reading_prefix(a: Seq<Seq<char>>, b: Seq<Seq<char>>, n: int)
    requires
        n <= a.len(),
        n <= b.len(),
        forall|i: int| 0 <= i < n ==> #[trigger] a[i] == b[i],
    ensures
        reading(a, n) == reading(b, n),
    decreases n,
{
    if n > 0 {
        lemma_reading_prefix(a, b, n - 1);
        assert(a[n - 1] == b[n - 1]);
    }
}

/// A further line that holds a pair adds one setting at the end, in the section
/// that is open; one that holds nothing changes nothing; one that opens a section
/// leaves the settings as they are. The first line that cannot be read is
/// reported by its number, whatever comes after it.
pub proof fn further_lines_add_to_the_settings(a: Seq<char>, b: Seq<char>, line: Seq<char>)
    requires
        lines(b) == lines(a).push(line),
    ensures
        ({
            let n = lines(a).len() as int;
            &&& reading(lines(a), n) matches Ok(state) ==> match line_of(
                line,
                state.section.len() > 0,
            ) {
                LineView::Blank => reading(lines(b), n + 1) == reading(lines(a), n),
                LineView::Section(name) => reading(lines(b), n + 1) == Ok::<
                    IniView,
                    (int, Seq<char>),
                >(IniView { section: name, settings: state.settings }),
                LineView::Pair(key, value) => settings_in(b) == Ok::<
                    Seq<SettingView>,
                    (int, Seq<char>),
                >(state.settings.push(SettingView { section: state.section, key, value })),
                LineView::Wrong(message) => settings_in(b) == Err::<
                    Seq<SettingView>,
                    (int, Seq<char>),
                >((n + 1, message)),
            }
            &&& settings_in(a) is Err ==> settings_in(b) == settings_in(a)
        }),
{
    let n = lines(a).len() as int;
    lemma_reading_prefix(lines(a), lines(b), n);
    assert(lines(b)[n] == line);
}

proof fn lemma_sections_apart(a: Seq<Seq<char>>, b: Seq<Seq<char>>, k: int)
    requires
        reading(a, a.len() as int) is Ok,
        1 <= k <= b.len(),
        line_of(b[0], false) is Section,
        line_of(b[0], true) == line_of(b[0], false),
        reading(b, k) is Ok,
    ensures
        reading(a + b, a.len() + k) == Ok::<IniView, (int, Seq<char>)>(
            IniView {
                section: reading(b, k)->Ok_0.section,
                settings: reading(a, a.len() as int)->Ok_0.settings + reading(b, k)->Ok_0.settings,
            },
        ),
    decreases k,
{
    let n = a.len() as int;
    let before = reading(a, n)->Ok_0;
    let all = a + b;
    assert(all[n + k - 1] == b[k - 1]);
    if k == 1 {
        lemma_reading_prefix(a, all, n);
        assert(reading(b, 0) == Ok::<IniView, (int, Seq<char>)>(
            IniView { section: Seq::empty(), settings: Seq::empty() },
        ));
        assert(before.settings + Seq::<SettingView>::empty() =~= before.settings);
    } else {
        lemma_sections_apart(a, b, k - 1);
        let middle = reading(b, k - 1)->Ok_0;
        if let LineView::Pair(key, value) = line_of(b[k - 1], middle.section.len() > 0) {
            let setting = SettingView { section: middle.section, key, value };
            assert(before.settings + middle.settings.push(setting) =~= (before.settings
                + middle.settings).push(setting));
        }
    }
}

/// Sections are read for themselves: what a text gives that starts with the
/// header of a section does not depend on what stands before it, and comes after
/// what that gives.
pub proof fn sections_are_read_apart(a: Seq<char>, b: Seq<char>, all: Seq<char>)
    requires
        lines(all) == lines(a) + lines(b),
        settings_in(a) is Ok,
        settings_in(b) is Ok,
        lines(b).len() > 0,
        line_of(lines(b)[0], false) is Section,
    ensures
        settings_in(all) == Ok::<Seq<SettingView>, (int, Seq<char>)>(
            settings_in(a)->Ok_0 + settings_in(b)->Ok_0,
        ),
{
    lemma_sections_apart(lines(a), lines(b), lines(b).len() as int);
}

/// A header that is not closed or is empty, a setting before the first section,
/// a line without an equals sign and one without a key cannot be read, and each
/// is reported in words of its own.
pub proof fn wrong_lines_are_told_apart(line: Seq<char>, in_section: bool)
    requires
        is_clean(line),
        line.len() > 0,
    ensures
        line[0] == '[' && line.last() != ']' ==> line_of(line, in_section) == LineView::Wrong(
            "unterminated section header"@,
        ),
        line == seq!['[', ']'] ==> line_of(line, in_section) == LineView::Wrong(
            "empty section header"@,
        ),
        line[0] != '[' && !in_section ==> line_of(line, in_section) == LineView::Wrong(
            "key/value appears before any section"@,
        ),
        line[0] != '[' && in_section && !line.contains('=') ==> line_of(line, in_section)
            == LineView::Wrong("expected key = value"@),
        line[0] == '=' && in_section ==> line_of(line, in_section) == LineView::Wrong("empty key"@),
{
    let none = Seq::<char>::empty();
    lemma_without_comment(line);
    trimming_cuts_space_around(none, line, none);
    assert(none + line + none =~= line);
    if line == seq!['[', ']'] {
        assert(line.subrange(1, 1) =~= none);
        trimming_cuts_space_around(none, none, none);
        assert(none + none + none =~= none);
    }
    if !line.contains('=') {
        assert forall|i: int| 0 <= i < line.len() implies !Class::One('=').holds(
            #[trigger] line[i],
        ) by {
            assert(line.contains(line[i]));
        }
        seek_finds_first(line, Class::One('='), 0, line.len() as int);
    }
    if line[0] == '=' {
        seek_finds_first(line, Class::One('='), 0, 0);
        assert(line.take(0) =~= none);
        trimming_cuts_space_around(none, none, none);
        assert(none + none + none =~= none);
    }
}

} // verus!
