//! Reading single values out of JSON text by their keys.
//!
//! A key is looked for as quoted text anywhere in the input, so the functions
//! here find values at every depth of a document without reading the whole of
//! it. What they take is the first value whose key stands at or after a given
//! position.

use vstd::prelude::*;
use vstd::slice::slice_subrange;

use crate::number::{
    decimal, decimal_int, only_digits_are_numbers, parse_signed, signed, unsigned,
    written_integer_reads_back, written_number_reads_back, written_numbers_are_shortest,
};
use crate::text::{
    chars_of, find, find_text, first_place_is_first, is_ascii_space, is_digit, lemma_position,
    lemma_seek, occurs_at, position, seek, seek_finds_first, Class,
};

verus! {

/// A key in quotation marks.
pub open spec fn in_quotes(key: Seq<char>) -> Seq<char> {
    seq!['"'] + key + seq!['"']
}

/// The position of the first key at or after `from`.
pub open spec fn key_position(s: Seq<char>, key: Seq<char>, from: int) -> Option<int> {
    position(s, in_quotes(key), from)
}

/// The position at which the value of a key starts: the first character other
/// than white space after the first colon that follows the key.
pub open spec fn value_start(s: Seq<char>, key: Seq<char>, from: int) -> Option<int> {
    match key_position(s, key, from) {
        None => None,
        Some(at) => {
            let colon = seek(s, Class::One(':'), at);
            let start = seek(s, Class::NotAsciiSpace, colon + 1);
            if colon < s.len() && start < s.len() {
                Some(start)
            } else {
                None
            }
        },
    }
}

/// The position of the brace that closes what is open, for a scan that is at
/// `at`, inside `depth` braces, and maybe inside a string or behind a backslash
/// in one. Braces in strings do not count.
pub open spec fn closing(s: Seq<char>, at: int, depth: int, in_string: bool, escaped: bool) -> Option<
    int,
>
    decreases s.len() - at,
{
    if at >= s.len() {
        None
    } else if in_string {
        if escaped {
            closing(s, at + 1, depth, true, false)
        } else if s[at] == '\\' {
            closing(s, at + 1, depth, true, true)
        } else if s[at] == '"' {
            closing(s, at + 1, depth, false, false)
        } else {
            closing(s, at + 1, depth, true, false)
        }
    } else if s[at] == '"' {
        closing(s, at + 1, depth, true, false)
    } else if s[at] == '{' {
        closing(s, at + 1, depth + 1, false, false)
    } else if s[at] == '}' {
        if depth == 0 {
            None
        } else if depth == 1 {
            Some(at)
        } else {
            closing(s, at + 1, depth - 1, false, false)
        }
    } else {
        closing(s, at + 1, depth, false, false)
    }
}

/// The text of the object that starts at `at`, from its opening to its closing
/// brace.
pub open spec fn object_at(s: Seq<char>, at: int) -> Option<Seq<char>> {
    match closing(s, at, 0, false, false) {
        Some(end) => Some(s.subrange(at, end + 1)),
        None => None,
    }
}

/// The object that a key has as its value.
pub open spec fn object_after(s: Seq<char>, key: Seq<char>, from: int) -> Option<Seq<char>> {
    match value_start(s, key, from) {
        Some(start) => if s[start] == '{' {
            object_at(s, start)
        } else {
            None
        },
        None => None,
    }
}

/// The integer that a text starts with: its first character, which may be a
/// sign, and the digits that follow. The rest of the text does not matter.
pub open spec fn leading_int(s: Seq<char>) -> Option<int> {
    if s.len() == 0 {
        None
    } else {
        signed(s.take(seek(s, Class::NotDigit, 1)), i32::MIN as int, i32::MAX as int)
    }
}

/// The integer that starts at the first digit or minus sign of a text.
pub open spec fn first_int(s: Seq<char>) -> Option<int> {
    leading_int(s.skip(seek(s, Class::NumberStart, 0)))
}

/// The integer that a key has as its value.
pub open spec fn int_after(s: Seq<char>, key: Seq<char>, from: int) -> Option<int> {
    match value_start(s, key, from) {
        Some(start) => if Class::NumberStart.holds(s[start]) {
            leading_int(s.skip(start))
        } else {
            None
        },
        None => None,
    }
}

/// The position of the quotation mark that ends a string, for a scan that is at
/// `at` in it.
pub open spec fn string_end(s: Seq<char>, at: int, escaped: bool) -> Option<int>
    decreases s.len() - at,
{
    if at >= s.len() {
        None
    } else if escaped {
        string_end(s, at + 1, false)
    } else if s[at] == '\\' {
        string_end(s, at + 1, true)
    } else if s[at] == '"' {
        Some(at)
    } else {
        string_end(s, at + 1, false)
    }
}

/// The string that a key has as its value, as it is written: escapes stay.
pub open spec fn string_after(s: Seq<char>, key: Seq<char>, from: int) -> Option<Seq<char>> {
    match value_start(s, key, from) {
        Some(start) => if s[start] == '"' {
            match string_end(s, start + 1, false) {
                Some(end) => Some(s.subrange(start + 1, end)),
                None => None,
            }
        } else {
            None
        },
        None => None,
    }
}

/// What an optional text reads as.
pub open spec fn slice_view(r: Option<&[char]>) -> Option<Seq<char>> {
    match r {
        Some(text) => Some(text@),
        None => None,
    }
}

/// What an optional index reads as.
pub open spec fn index_view(r: Option<usize>) -> Option<int> {
    match r {
        Some(at) => Some(at as int),
        None => None,
    }
}

/// What an optional integer reads as.
pub open spec fn int_view(r: Option<i32>) -> Option<int> {
    match r {
        Some(n) => Some(n as int),
        None => None,
    }
}

/// Looks for a key.
pub fn find_json_key(input: &[char], key: &str, start: usize) -> (r: Option<usize>)
    ensures
        index_view(r) == key_position(input@, key@, start as int),
        r matches Some(at) ==> start <= at && at + 2 <= input@.len(),
{
    if start > input.len() {
        return None;
    }
    let mut needle: Vec<char> = Vec::new();
    needle.push('"');
    let mut key_chars = chars_of(key);
    needle.append(&mut key_chars);
    needle.push('"');
    assert(needle@ == in_quotes(key@));
    find_text(input, &needle, start)
}

/// Looks for the start of a value.
pub fn json_value_start(input: &[char], key: &str, start: usize) -> (r: Option<usize>)
    ensures
        index_view(r) == value_start(input@, key@, start as int),
        r matches Some(at) ==> at < input@.len(),
{
    let key_at: usize = match find_json_key(input, key, start) {
        Some(at) => at,
        None => {
            return None;
        },
    };
    let colon: usize = find(input, Class::One(':'), key_at);
    if colon == input.len() {
        return None;
    }
    let value: usize = find(input, Class::NotAsciiSpace, colon + 1);
    if value == input.len() {
        return None;
    }
    Some(value)
}

/// Looks for the brace that closes the one at `open`.
pub fn matching_brace(input: &[char], open: usize) -> (r: Option<usize>)
    requires
        open <= input@.len(),
    ensures
        index_view(r) == closing(input@, open as int, 0, false, false),
        r matches Some(end) ==> open <= end < input@.len(),
{
    let mut depth: usize = 0;
    let mut in_string = false;
    let mut escaped = false;
    let mut i: usize = open;
    while i < input.len()
        invariant
            open <= i <= input@.len(),
            depth <= i - open,
            !in_string ==> !escaped,
            closing(input@, open as int, 0, false, false) == closing(
                input@,
                i as int,
                depth as int,
                in_string,
                escaped,
            ),
        decreases input@.len() - i,
    {
        let c = input[i];
        if in_string {
            if escaped {
                escaped = false;
            } else if c == '\\' {
                escaped = true;
            } else if c == '"' {
                in_string = false;
            }
        } else if c == '"' {
            in_string = true;
        } else if c == '{' {
            depth = depth + 1;
        } else if c == '}' {
            if depth == 0 {
                return None;
            }
            depth = depth - 1;
            if depth == 0 {
                return Some(i);
            }
        }
        i = i + 1;
    }
    None
}

/// Cuts out the object that starts at `start`.
pub fn json_object_at<'a>(input: &'a [char], start: usize) -> (r: Option<&'a [char]>)
    requires
        start <= input@.len(),
    ensures
        slice_view(r) == object_at(input@, start as int),
{
    let length: usize = input.len();
    match matching_brace(input, start) {
        Some(end) => {
            assert(end < length);
            Some(slice_subrange(input, start, end + 1))
        },
        None => None,
    }
}

/// Cuts out the object that a key has as its value.
pub fn json_object_after_key<'a>(input: &'a [char], key: &str, start: usize) -> (r: Option<
    &'a [char],
>)
    ensures
        slice_view(r) == object_after(input@, key@, start as int),
{
    match json_value_start(input, key, start) {
        Some(at) => if input[at] == '{' {
            json_object_at(input, at)
        } else {
            None
        },
        None => None,
    }
}

/// Reads the integer at the start of a text.
pub fn parse_leading_i32(s: &[char]) -> (r: Option<i32>)
    ensures
        int_view(r) == leading_int(s@),
{
    if s.len() == 0 {
        return None;
    }
    let end: usize = find(s, Class::NotDigit, 1);
    let digits = slice_subrange(s, 0, end);
    assert(digits@ == s@.take(end as int));
    match parse_signed(digits, -2147483648, 2147483647) {
        Some(n) => Some(n as i32),
        None => None,
    }
}

/// Reads the first integer in a text.
pub fn first_i32(input: &[char]) -> (r: Option<i32>)
    ensures
        int_view(r) == first_int(input@),
{
    let start: usize = find(input, Class::NumberStart, 0);
    let rest = slice_subrange(input, start, input.len());
    assert(rest@ == input@.skip(start as int));
    parse_leading_i32(rest)
}

/// Reads the integer that a key has as its value.
pub fn json_i32_after_key(input: &[char], key: &str, start: usize) -> (r: Option<i32>)
    ensures
        int_view(r) == int_after(input@, key@, start as int),
{
    match json_value_start(input, key, start) {
        Some(at) => {
            if !Class::NumberStart.test(input[at]) {
                return None;
            }
            let rest = slice_subrange(input, at, input.len());
            assert(rest@ == input@.skip(at as int));
            parse_leading_i32(rest)
        },
        None => None,
    }
}

/// Cuts out the string that a key has as its value.
pub fn json_string_after_key<'a>(input: &'a [char], key: &str, start: usize) -> (r: Option<
    &'a [char],
>)
    ensures
        slice_view(r) == string_after(input@, key@, start as int),
{
    let quote: usize = match json_value_start(input, key, start) {
        Some(at) => at,
        None => {
            return None;
        },
    };
    if input[quote] != '"' {
        return None;
    }
    let string_start: usize = quote + 1;
    let mut escaped = false;
    let mut i: usize = string_start;
    while i < input.len()
        invariant
            string_start <= i <= input@.len(),
            string_end(input@, string_start as int, false) == string_end(
                input@,
                i as int,
                escaped,
            ),
            value_start(input@, key@, start as int) == Some(string_start - 1),
            input@[string_start - 1] == '"',
        decreases input@.len() - i,
    {
        let c = input[i];
        if escaped {
            escaped = false;
        } else if c == '\\' {
            escaped = true;
        } else if c == '"' {
            return Some(slice_subrange(input, string_start, i));
        }
        i = i + 1;
    }
    None
}

/// A key, a colon and what follows them, with something before them in which the
/// key does not start. White space after the colon does not count, and neither
/// does what stands between the key and the colon.
pub open spec fn is_entry(
    s: Seq<char>,
    before: Seq<char>,
    key: Seq<char>,
    gap: Seq<char>,
    space: Seq<char>,
    value: Seq<char>,
) -> bool {
    &&& s == before + in_quotes(key) + gap + seq![':'] + space + value
    &&& forall|k: int| 0 <= k < before.len() ==> !#[trigger] occurs_at(s, in_quotes(key), k)
    &&& !key.contains(':') && !gap.contains(':')
    &&& forall|i: int| 0 <= i < space.len() ==> is_ascii_space(#[trigger] space[i])
    &&& value.len() > 0 && !is_ascii_space(value[0])
}

/// The value of a key starts after the colon and the white space behind it.
pub proof fn value_follows_its_key(
    s: Seq<char>,
    before: Seq<char>,
    key: Seq<char>,
    gap: Seq<char>,
    space: Seq<char>,
    value: Seq<char>,
)
    requires
        is_entry(s, before, key, gap, space, value),
    ensures
        value_start(s, key, 0) matches Some(start) && start + value.len() == s.len() && s.skip(start)
            == value,
{
    let at = before.len() as int;
    let quoted = in_quotes(key);
    assert(s.subrange(at, at + quoted.len()) =~= quoted);
    assert(occurs_at(s, quoted, at));
    first_place_is_first(s, quoted, 0, at);
    let colon = at + quoted.len() + gap.len();
    assert forall|i: int| at <= i < colon implies !Class::One(':').holds(#[trigger] s[i]) by {
        if i < at + quoted.len() {
            let c = quoted[i - at];
            assert(s[i] == c);
            if 0 < i - at && i - at < quoted.len() - 1 {
                assert(key.contains(key[i - at - 1]));
            }
        } else {
            assert(gap.contains(gap[i - at - quoted.len()]));
        }
    }
    assert(s[colon] == ':');
    seek_finds_first(s, Class::One(':'), at, colon);
    let start = colon + 1 + space.len();
    assert forall|i: int| colon + 1 <= i < start implies !Class::NotAsciiSpace.holds(
        #[trigger] s[i],
    ) by {
        assert(s[i] == space[i - colon - 1]);
        assert(is_ascii_space(space[i - colon - 1]));
    }
    assert(s[start] == value[0]);
    seek_finds_first(s, Class::NotAsciiSpace, colon + 1, start);
    assert(s.skip(start) =~= value);
}

proof fn lemma_leading_int(n: int, after: Seq<char>)
    requires
        i32::MIN <= n <= i32::MAX,
        after.len() > 0 ==> !is_digit(after[0]),
    ensures
        leading_int(decimal_int(n) + after) == Some(n),
{
    let written = decimal_int(n);
    let s = written + after;
    written_integer_reads_back(n, i32::MIN as int, i32::MAX as int);
    let digits = decimal(if n < 0 {
        (-n) as nat
    } else {
        n as nat
    });
    written_numbers_are_shortest(if n < 0 {
        (-n) as nat
    } else {
        n as nat
    });
    let end = written.len() as int;
    assert forall|i: int| 1 <= i < end implies !Class::NotDigit.holds(#[trigger] s[i]) by {
        assert(s[i] == written[i]);
        if n < 0 {
            assert(is_digit(digits[i - 1]));
        } else {
            assert(is_digit(digits[i]));
        }
    }
    if end < s.len() {
        assert(s[end] == after[0]);
    }
    assert(end >= 1);
    seek_finds_first(s, Class::NotDigit, 1, end);
    assert(s.take(end) =~= written);
}

/// The integer that a key has is the one that is written after it, whatever
/// follows its digits.
pub proof fn integers_are_read_by_key(
    s: Seq<char>,
    before: Seq<char>,
    key: Seq<char>,
    gap: Seq<char>,
    space: Seq<char>,
    n: int,
    after: Seq<char>,
)
    requires
        is_entry(s, before, key, gap, space, decimal_int(n) + after),
        i32::MIN <= n <= i32::MAX,
        after.len() > 0 ==> !is_digit(after[0]),
    ensures
        int_after(s, key, 0) == Some(n),
{
    value_follows_its_key(s, before, key, gap, space, decimal_int(n) + after);
    lemma_leading_int(n, after);
    let start = value_start(s, key, 0)->0;
    assert(s.skip(start)[0] == s[start]);
    let digits = decimal(if n < 0 {
        (-n) as nat
    } else {
        n as nat
    });
    written_numbers_are_shortest(if n < 0 {
        (-n) as nat
    } else {
        n as nat
    });
    assert(is_digit(digits[0]));
    assert((decimal_int(n) + after)[0] == decimal_int(n)[0]);
    written_integer_reads_back(n, i32::MIN as int, i32::MAX as int);
}

/// The first integer in a text is the first that is written in it: what stands
/// before has neither digits nor minus signs, and what stands after its digits
/// does not count.
pub proof fn first_integer_is_found(before: Seq<char>, n: int, after: Seq<char>)
    requires
        i32::MIN <= n <= i32::MAX,
        forall|i: int| 0 <= i < before.len() ==> !is_digit(#[trigger] before[i]) && before[i] != '-',
        after.len() > 0 ==> !is_digit(after[0]),
    ensures
        first_int(before + decimal_int(n) + after) == Some(n),
{
    let s = before + decimal_int(n) + after;
    let at = before.len() as int;
    let digits = decimal(if n < 0 {
        (-n) as nat
    } else {
        n as nat
    });
    written_numbers_are_shortest(if n < 0 {
        (-n) as nat
    } else {
        n as nat
    });
    assert(is_digit(digits[0]));
    written_integer_reads_back(n, i32::MIN as int, i32::MAX as int);
    assert(s[at] == decimal_int(n)[0]);
    assert forall|i: int| 0 <= i < at implies !Class::NumberStart.holds(#[trigger] s[i]) by {
        assert(s[i] == before[i]);
    }
    seek_finds_first(s, Class::NumberStart, 0, at);
    assert(s.skip(at) =~= decimal_int(n) + after);
    lemma_leading_int(n, after);
}

/// Whether a text can stand between quotation marks: every quotation mark in it has
/// a backslash before it, and every backslash has the character that it escapes
/// after it.
pub open spec fn is_string_body(text: Seq<char>) -> bool
    decreases text.len(),
{
    if text.len() == 0 {
        true
    } else if text[0] == '\\' {
        text.len() >= 2 && is_string_body(text.skip(2))
    } else {
        text[0] != '"' && is_string_body(text.skip(1))
    }
}

/// A text without quotation marks and backslashes can stand between quotation
/// marks.
pub proof fn plain_texts_are_string_bodies(text: Seq<char>)
    requires
        !text.contains('"'),
        !text.contains('\\'),
    ensures
        is_string_body(text),
    decreases text.len(),
{
    if text.len() > 0 {
        assert(text.contains(text[0]));
        let rest = text.skip(1);
        assert forall|i: int| 0 <= i < rest.len() implies rest[i] != '"' && rest[i] != '\\' by {
            assert(text.contains(text[i + 1]));
        }
        plain_texts_are_string_bodies(rest);
    }
}

proof fn lemma_string_run(s: Seq<char>, at: int, end: int)
    requires
        0 <= at <= end < s.len(),
        s[end] == '"',
        is_string_body(s.subrange(at, end)),
    ensures
        string_end(s, at, false) == Some(end),
    decreases end - at,
{
    let text = s.subrange(at, end);
    if at < end {
        assert(text[0] == s[at]);
        if s[at] == '\\' {
            assert(text.skip(2) =~= s.subrange(at + 2, end));
            assert(string_end(s, at + 1, true) == string_end(s, at + 2, false));
            lemma_string_run(s, at + 2, end);
        } else {
            assert(text.skip(1) =~= s.subrange(at + 1, end));
            lemma_string_run(s, at + 1, end);
        }
    }
}

/// The string that a key has is what stands between the quotation marks after
/// it, as it is written: escaped quotation marks do not end it.
pub proof fn strings_are_read_by_key(
    s: Seq<char>,
    before: Seq<char>,
    key: Seq<char>,
    gap: Seq<char>,
    space: Seq<char>,
    text: Seq<char>,
    after: Seq<char>,
)
    requires
        is_entry(s, before, key, gap, space, seq!['"'] + text + seq!['"'] + after),
        is_string_body(text),
    ensures
        string_after(s, key, 0) == Some(text),
{
    let value = seq!['"'] + text + seq!['"'] + after;
    value_follows_its_key(s, before, key, gap, space, value);
    let start = value_start(s, key, 0)->0;
    assert(forall|i: int| 0 <= i < value.len() ==> s[start + i] == #[trigger] value[i]) by {
        assert forall|i: int| 0 <= i < value.len() implies s[start + i] == #[trigger] value[i] by {
            assert(s.skip(start)[i] == s[start + i]);
        }
    }
    assert(s[start] == value[0]);
    let end = start + 1 + text.len();
    assert(s[end] == value[1 + text.len() as int]);
    assert forall|i: int| 0 <= i < text.len() implies s[start + 1 + i] == text[i] by {
        assert(s[start + (1 + i)] == value[1 + i]);
    }
    assert(s.subrange(start + 1, end) =~= text);
    lemma_string_run(s, start + 1, end);
}

/// Whether a text has neither braces nor quotation marks in it.
pub open spec fn is_plain(s: Seq<char>) -> bool {
    !s.contains('{') && !s.contains('}') && !s.contains('"')
}

proof fn lemma_plain_run(s: Seq<char>, at: int, to: int, depth: int)
    requires
        0 <= at <= to <= s.len(),
        forall|i: int| at <= i < to ==> #[trigger] s[i] != '"' && s[i] != '{' && s[i] != '}',
    ensures
        closing(s, at, depth, false, false) == closing(s, to, depth, false, false),
    decreases to - at,
{
    if at < to {
        assert(s[at] != '"' && s[at] != '{' && s[at] != '}');
        lemma_plain_run(s, at + 1, to, depth);
    }
}

proof fn lemma_quoted_run(s: Seq<char>, at: int, end: int, depth: int)
    requires
        0 <= at <= end < s.len(),
        s[end] == '"',
        is_string_body(s.subrange(at, end)),
    ensures
        closing(s, at, depth, true, false) == closing(s, end + 1, depth, false, false),
    decreases end - at,
{
    let text = s.subrange(at, end);
    if at < end {
        assert(text[0] == s[at]);
        if s[at] == '\\' {
            assert(text.skip(2) =~= s.subrange(at + 2, end));
            assert(closing(s, at + 1, depth, true, true) == closing(s, at + 2, depth, true, false));
            lemma_quoted_run(s, at + 2, end, depth);
        } else {
            assert(text.skip(1) =~= s.subrange(at + 1, end));
            lemma_quoted_run(s, at + 1, end, depth);
        }
    }
}

/// An object ends at the brace that closes it. Braces in a string do not count,
/// and an object inside is part of the one around it.
pub proof fn objects_end_at_their_brace(
    a: Seq<char>,
    text: Seq<char>,
    b: Seq<char>,
    after: Seq<char>,
)
    requires
        is_plain(a),
        is_plain(b),
        is_string_body(text),
    ensures
        object_at(seq!['{'] + a + seq!['}'] + after, 0) == Some(seq!['{'] + a + seq!['}']),
        object_at(
            seq!['{'] + a + seq!['"'] + text + seq!['"'] + b + seq!['}'] + after,
            0,
        ) == Some(seq!['{'] + a + seq!['"'] + text + seq!['"'] + b + seq!['}']),
        is_plain(text) ==> object_at(
            seq!['{'] + a + seq!['{'] + text + seq!['}'] + b + seq!['}'] + after,
            0,
        ) == Some(seq!['{'] + a + seq!['{'] + text + seq!['}'] + b + seq!['}']),
{
    let flat = seq!['{'] + a + seq!['}'];
    let s = flat + after;
    let n = a.len() as int;
    assert(seq!['{'] + a + seq!['}'] + after =~= s);
    assert forall|i: int| 1 <= i < 1 + n implies #[trigger] s[i] != '"' && s[i] != '{' && s[i]
        != '}' by {
        assert(s[i] == a[i - 1]);
        assert(a.contains(a[i - 1]));
    }
    assert(s[0] == '{' && s[1 + n] == '}');
    lemma_plain_run(s, 1, 1 + n, 1);
    assert(closing(s, 0, 0, false, false) == Some(1 + n));
    assert(s.subrange(0, n + 2) =~= flat);

    let m = text.len() as int;
    let l = b.len() as int;
    let quoted = seq!['{'] + a + seq!['"'] + text + seq!['"'] + b + seq!['}'];
    let s = quoted + after;
    assert(seq!['{'] + a + seq!['"'] + text + seq!['"'] + b + seq!['}'] + after =~= s);
    assert forall|i: int| 1 <= i < 1 + n implies #[trigger] s[i] != '"' && s[i] != '{' && s[i]
        != '}' by {
        assert(s[i] == a[i - 1]);
        assert(a.contains(a[i - 1]));
    }
    assert(s[0] == '{' && s[1 + n] == '"' && s[2 + n + m] == '"' && s[3 + n + m + l] == '}');
    lemma_plain_run(s, 1, 1 + n, 1);
    assert(s.subrange(2 + n, 2 + n + m) =~= text);
    lemma_quoted_run(s, 2 + n, 2 + n + m, 1);
    assert forall|i: int| 3 + n + m <= i < 3 + n + m + l implies #[trigger] s[i] != '"' && s[i]
        != '{' && s[i] != '}' by {
        assert(s[i] == b[i - 3 - n - m]);
        assert(b.contains(b[i - 3 - n - m]));
    }
    lemma_plain_run(s, 3 + n + m, 3 + n + m + l, 1);
    assert(closing(s, 0, 0, false, false) == Some(3 + n + m + l));
    assert(s.subrange(0, 4 + n + m + l) =~= quoted);

    if is_plain(text) {
        let nested = seq!['{'] + a + seq!['{'] + text + seq!['}'] + b + seq!['}'];
        let s = nested + after;
        assert(seq!['{'] + a + seq!['{'] + text + seq!['}'] + b + seq!['}'] + after =~= s);
        assert forall|i: int| 1 <= i < 1 + n implies #[trigger] s[i] != '"' && s[i] != '{' && s[i]
            != '}' by {
            assert(s[i] == a[i - 1]);
            assert(a.contains(a[i - 1]));
        }
        assert(s[0] == '{' && s[1 + n] == '{' && s[2 + n + m] == '}' && s[3 + n + m + l] == '}');
        lemma_plain_run(s, 1, 1 + n, 1);
        assert forall|i: int| 2 + n <= i < 2 + n + m implies #[trigger] s[i] != '"' && s[i] != '{'
            && s[i] != '}' by {
            assert(s[i] == text[i - 2 - n]);
            assert(text.contains(text[i - 2 - n]));
        }
        lemma_plain_run(s, 2 + n, 2 + n + m, 2);
        assert forall|i: int| 3 + n + m <= i < 3 + n + m + l implies #[trigger] s[i] != '"' && s[i]
            != '{' && s[i] != '}' by {
            assert(s[i] == b[i - 3 - n - m]);
            assert(b.contains(b[i - 3 - n - m]));
        }
        lemma_plain_run(s, 3 + n + m, 3 + n + m + l, 1);
        assert(closing(s, 0, 0, false, false) == Some(3 + n + m + l));
        assert(s.subrange(0, 4 + n + m + l) =~= nested);
    }
}

proof fn lemma_closing_bounds(s: Seq<char>, at: int, depth: int, in_string: bool, escaped: bool)
    ensures
        closing(s, at, depth, in_string, escaped) matches Some(end) ==> at <= end < s.len()
            && s[end] == '}',
    decreases s.len() - at,
{
    if at < s.len() {
        lemma_closing_bounds(s, at + 1, depth, true, false);
        lemma_closing_bounds(s, at + 1, depth, true, true);
        lemma_closing_bounds(s, at + 1, depth, false, false);
        lemma_closing_bounds(s, at + 1, depth + 1, false, false);
        lemma_closing_bounds(s, at + 1, depth - 1, false, false);
    }
}

proof fn lemma_string_end_bounds(s: Seq<char>, at: int, escaped: bool)
    ensures
        string_end(s, at, escaped) matches Some(end) ==> at <= end < s.len() && s[end] == '"',
    decreases s.len() - at,
{
    if at < s.len() {
        lemma_string_end_bounds(s, at + 1, true);
        lemma_string_end_bounds(s, at + 1, false);
    }
}

/// What is read out of a document stands in it: a string between two quotation
/// marks, an object from one brace to another, both behind their key.
pub proof fn values_stand_in_the_document(s: Seq<char>, key: Seq<char>, from: int)
    requires
        0 <= from,
    ensures
        string_after(s, key, from) matches Some(text) ==> exists|a: int, b: int|
            from < a <= b < s.len() && s[a - 1] == '"' && s[b] == '"' && text == #[trigger] s.subrange(
                a,
                b,
            ),
        object_after(s, key, from) matches Some(object) ==> exists|a: int, b: int|
            from < a < b <= s.len() && s[a] == '{' && s[b - 1] == '}' && object
                == #[trigger] s.subrange(a, b),
{
    lemma_position(s, in_quotes(key), from);
    if let Some(at) = key_position(s, key, from) {
        lemma_seek(s, Class::One(':'), at);
        let colon = seek(s, Class::One(':'), at);
        if colon < s.len() {
            lemma_seek(s, Class::NotAsciiSpace, colon + 1);
            let start = seek(s, Class::NotAsciiSpace, colon + 1);
            if start < s.len() {
                assert(from < start);
                if s[start] == '"' {
                    lemma_string_end_bounds(s, start + 1, false);
                    if let Some(end) = string_end(s, start + 1, false) {
                        assert(string_after(s, key, from) == Some(s.subrange(start + 1, end)));
                    }
                }
                if s[start] == '{' {
                    lemma_closing_bounds(s, start, 0, false, false);
                    if let Some(end) = closing(s, start, 0, false, false) {
                        assert(object_after(s, key, from) == Some(s.subrange(start, end + 1)));
                        assert(end > start);
                    }
                }
            }
        }
    }
}

/// An integer that does not fit 32 bits is none, and so is a value that is no
/// integer, and a key that does not occur.
pub proof fn other_values_are_no_integers(
    s: Seq<char>,
    before: Seq<char>,
    key: Seq<char>,
    gap: Seq<char>,
    space: Seq<char>,
    n: nat,
    after: Seq<char>,
    value: Seq<char>,
)
    ensures
        is_entry(s, before, key, gap, space, decimal(n) + after) && n > i32::MAX && (after.len() > 0
            ==> !is_digit(after[0])) ==> int_after(s, key, 0) is None,
        is_entry(s, before, key, gap, space, value) && !is_digit(value[0]) && value[0] != '-'
            ==> int_after(s, key, 0) is None,
        is_entry(s, before, key, gap, space, value) && value[0] != '"' ==> string_after(s, key, 0)
            is None,
        is_entry(s, before, key, gap, space, value) && value[0] != '{' ==> object_after(s, key, 0)
            is None,
        (forall|k: int| !#[trigger] occurs_at(s, in_quotes(key), k)) ==> int_after(s, key, 0) is None
            && string_after(s, key, 0) is None && object_after(s, key, 0) is None,
{
    if is_entry(s, before, key, gap, space, decimal(n) + after) && n > i32::MAX && (after.len() > 0
        ==> !is_digit(after[0])) {
        value_follows_its_key(s, before, key, gap, space, decimal(n) + after);
        let start = value_start(s, key, 0)->0;
        assert(s.skip(start)[0] == s[start]);
        let digits = decimal(n);
        let whole = digits + after;
        written_numbers_are_shortest(n);
        let end = digits.len() as int;
        assert forall|i: int| 1 <= i < end implies !Class::NotDigit.holds(#[trigger] whole[i]) by {
            assert(is_digit(digits[i]));
        }
        if end < whole.len() {
            assert(whole[end] == after[0]);
        }
        seek_finds_first(whole, Class::NotDigit, 1, end);
        assert(whole.take(end) =~= digits);
        assert(is_digit(digits[0]));
        written_number_reads_back(n, n as int);
        only_digits_are_numbers(digits, n as int);
        assert(unsigned(digits, i32::MAX as int) is None);
    }
    if is_entry(s, before, key, gap, space, value) {
        value_follows_its_key(s, before, key, gap, space, value);
        let start = value_start(s, key, 0)->0;
        assert(s.skip(start)[0] == s[start]);
    }
    lemma_position(s, in_quotes(key), 0);
}

} // verus!
