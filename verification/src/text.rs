//! Text as sequences of characters: classes of characters, trimming and
//! searching.

use vstd::prelude::*;
use vstd::slice::slice_subrange;

verus! {

/// `String::push` of std appends one character.
pub assume_specification[ String::push ](s: &mut String, c: char)
    ensures
        final(s)@ == old(s)@.push(c),
;

/// The characters that Unicode gives the property `White_Space`.
pub open spec fn is_space(c: char) -> bool {
    let n: u32 = c as u32;
    ||| 0x09 <= n <= 0x0d
    ||| n == 0x20
    ||| n == 0x85
    ||| n == 0xa0
    ||| n == 0x1680
    ||| 0x2000 <= n <= 0x200a
    ||| n == 0x2028
    ||| n == 0x2029
    ||| n == 0x202f
    ||| n == 0x205f
    ||| n == 0x3000
}

/// The white space of ASCII: tab, line feed, form feed, carriage return, space.
pub open spec fn is_ascii_space(c: char) -> bool {
    let n: u32 = c as u32;
    n == 0x09 || n == 0x0a || n == 0x0c || n == 0x0d || n == 0x20
}

/// The decimal digits.
pub open spec fn is_digit(c: char) -> bool {
    '0' <= c && c <= '9'
}

/// A set of characters that a scan can look for.
#[derive(Debug, Clone, Copy)]
pub enum Class {
    /// One character alone.
    One(char),
    /// White space.
    Space,
    /// Everything but white space.
    NotSpace,
    /// Everything but the white space of ASCII.
    NotAsciiSpace,
    /// Everything but the decimal digits.
    NotDigit,
    /// The decimal digits and the minus sign.
    NumberStart,
    /// The characters that start a comment, `#` and `;`.
    Comment,
}

impl Class {
    /// Whether the class holds `c`.
    pub open spec fn holds(self, c: char) -> bool {
        match self {
            Class::One(one) => c == one,
            Class::Space => is_space(c),
            Class::NotSpace => !is_space(c),
            Class::NotAsciiSpace => !is_ascii_space(c),
            Class::NotDigit => !is_digit(c),
            Class::NumberStart => c == '-' || is_digit(c),
            Class::Comment => c == '#' || c == ';',
        }
    }

    /// Tests whether the class holds `c`.
    pub fn test(self, c: char) -> (r: bool)
        ensures
            r == self.holds(c),
    {
        match self {
            Class::One(one) => c == one,
            Class::Space => space(c),
            Class::NotSpace => !space(c),
            Class::NotAsciiSpace => {
                let n: u32 = c as u32;
                !(n == 0x09 || n == 0x0a || n == 0x0c || n == 0x0d || n == 0x20)
            },
            Class::NotDigit => !('0' <= c && c <= '9'),
            Class::NumberStart => c == '-' || ('0' <= c && c <= '9'),
            Class::Comment => c == '#' || c == ';',
        }
    }
}

/// Tests for white space.
pub fn space(c: char) -> (r: bool)
    ensures
        r == is_space(c),
{
    let n: u32 = c as u32;
    (0x09 <= n && n <= 0x0d) || n == 0x20 || n == 0x85 || n == 0xa0 || n == 0x1680 || (0x2000 <= n
        && n <= 0x200a) || n == 0x2028 || n == 0x2029 || n == 0x202f || n == 0x205f || n == 0x3000
}

/// The lower-case form of an ASCII letter; every other character stays as it is.
pub open spec fn lower(c: char) -> char {
    if 'A' <= c && c <= 'Z' {
        ((c as u32) + 32) as char
    } else {
        c
    }
}

/// The upper-case form of an ASCII letter; every other character stays as it is.
pub open spec fn upper(c: char) -> char {
    if 'a' <= c && c <= 'z' {
        ((c as u32) - 32) as char
    } else {
        c
    }
}

/// A text with its ASCII letters in lower case.
pub open spec fn lowered(s: Seq<char>) -> Seq<char> {
    Seq::new(s.len(), |i: int| lower(s[i]))
}

/// A text with its ASCII letters in upper case.
pub open spec fn uppered(s: Seq<char>) -> Seq<char> {
    Seq::new(s.len(), |i: int| upper(s[i]))
}

/// Lower-cases one character.
pub fn to_lower(c: char) -> (r: char)
    ensures
        r == lower(c),
{
    if 'A' <= c && c <= 'Z' {
        (c as u8 + 32) as char
    } else {
        c
    }
}

/// Upper-cases one character.
pub fn to_upper(c: char) -> (r: char)
    ensures
        r == upper(c),
{
    if 'a' <= c && c <= 'z' {
        (c as u8 - 32) as char
    } else {
        c
    }
}

/// Lower-cases a text.
pub fn lower_text(s: &[char]) -> (r: Vec<char>)
    ensures
        r@ == lowered(s@),
{
    let mut out: Vec<char> = Vec::new();
    for i in 0..s.len()
        invariant
            out@ == lowered(s@).take(i as int),
    {
        out.push(to_lower(s[i]));
    }
    out
}

/// Upper-cases a text.
pub fn upper_text(s: &[char]) -> (r: Vec<char>)
    ensures
        r@ == uppered(s@),
{
    let mut out: Vec<char> = Vec::new();
    for i in 0..s.len()
        invariant
            out@ == uppered(s@).take(i as int),
    {
        out.push(to_upper(s[i]));
    }
    out
}

/// The characters of a string.
pub fn chars_of(s: &str) -> (r: Vec<char>)
    ensures
        r@ == s@,
{
    let mut out: Vec<char> = Vec::new();
    for c in it: s.chars()
        invariant
            it.seq() == s@,
            out@ == s@.take(it.index()),
    {
        out.push(c);
    }
    out
}

/// The string with the given characters.
pub fn string_of(chars: &[char]) -> (r: String)
    ensures
        r@ == chars@,
{
    let mut out = String::new();
    for i in 0..chars.len()
        invariant
            out@ == chars@.take(i as int),
    {
        out.push(chars[i]);
    }
    out
}

/// Tests two texts for equality.
pub fn same(a: &[char], b: &[char]) -> (r: bool)
    ensures
        r == (a@ == b@),
{
    if a.len() != b.len() {
        return false;
    }
    for i in 0..a.len()
        invariant
            a.len() == b.len(),
            a@.take(i as int) == b@.take(i as int),
    {
        if a[i] != b[i] {
            assert(a@[i as int] != b@[i as int]);
            return false;
        }
        assert(a@.take(i + 1) == a@.take(i as int).push(a@[i as int]));
        assert(b@.take(i + 1) == b@.take(i as int).push(b@[i as int]));
    }
    assert(a@.take(a@.len() as int) == a@);
    assert(b@.take(b@.len() as int) == b@);
    true
}

/// Tests whether `a` and `b` hold the same text.
pub fn same_str(a: &str, b: &str) -> (r: bool)
    ensures
        r == (a@ == b@),
{
    let a_chars = chars_of(a);
    let b_chars = chars_of(b);
    same(&a_chars, &b_chars)
}

/// Tests whether a text is the one given as a string.
pub fn is_text(a: &[char], b: &str) -> (r: bool)
    ensures
        r == (a@ == b@),
{
    let b_chars = chars_of(b);
    same(a, &b_chars)
}

/// The first position at or after `from` that holds a character of `class`, or
/// the length of the text where there is none.
pub open spec fn seek(s: Seq<char>, class: Class, from: int) -> int
    decreases s.len() - from,
{
    if from >= s.len() {
        s.len() as int
    } else if class.holds(s[from]) {
        from
    } else {
        seek(s, class, from + 1)
    }
}

/// Looks for the first character of a class.
pub fn find(s: &[char], class: Class, from: usize) -> (r: usize)
    requires
        from <= s@.len(),
    ensures
        r == seek(s@, class, from as int),
        from <= r <= s@.len(),
        r < s@.len() ==> class.holds(s@[r as int]),
        forall|i: int| from <= i < r ==> !class.holds(#[trigger] s@[i]),
{
    let mut i: usize = from;
    while i < s.len()
        invariant
            from <= i <= s@.len(),
            seek(s@, class, from as int) == seek(s@, class, i as int),
            forall|k: int| from <= k < i ==> !class.holds(#[trigger] s@[k]),
        decreases s@.len() - i,
    {
        if class.test(s[i]) {
            return i;
        }
        i = i + 1;
    }
    i
}

/// What `seek` finds, stated by its properties.
pub proof fn lemma_seek(s: Seq<char>, class: Class, from: int)
    requires
        0 <= from <= s.len(),
    ensures
        from <= seek(s, class, from) <= s.len(),
        seek(s, class, from) < s.len() ==> class.holds(s[seek(s, class, from)]),
        forall|i: int| from <= i < seek(s, class, from) ==> !class.holds(#[trigger] s[i]),
    decreases s.len() - from,
{
    if from < s.len() && !class.holds(s[from]) {
        lemma_seek(s, class, from + 1);
    }
}

/// A text without the white space at its start.
pub open spec fn trimmed_start(s: Seq<char>) -> Seq<char> {
    s.skip(seek(s, Class::NotSpace, 0))
}

/// A text without the white space at its end.
pub open spec fn trimmed_end(s: Seq<char>) -> Seq<char>
    decreases s.len(),
{
    if s.len() > 0 && is_space(s.last()) {
        trimmed_end(s.drop_last())
    } else {
        s
    }
}

/// A text without the white space around it.
pub open spec fn trimmed(s: Seq<char>) -> Seq<char> {
    trimmed_end(trimmed_start(s))
}

/// Cuts the white space at the start of a text.
pub fn trim_start<'a>(s: &'a [char]) -> (r: &'a [char])
    ensures
        r@ == trimmed_start(s@),
{
    let start: usize = find(s, Class::NotSpace, 0);
    slice_subrange(s, start, s.len())
}

/// Cuts the white space around a text.
pub fn trim<'a>(s: &'a [char]) -> (r: &'a [char])
    ensures
        r@ == trimmed(s@),
{
    let head = trim_start(s);
    let mut end: usize = head.len();
    assert(head@.take(end as int) == head@);
    while end > 0 && space(head[end - 1])
        invariant
            end <= head@.len(),
            trimmed_end(head@) == trimmed_end(head@.take(end as int)),
        decreases end,
    {
        assert(head@.take(end as int).drop_last() == head@.take(end - 1));
        end = end - 1;
    }
    slice_subrange(head, 0, end)
}

/// A trimmed text has no white space at either end.
pub proof fn trimmed_has_no_space_around(s: Seq<char>)
    ensures
        trimmed(s).len() > 0 ==> !is_space(trimmed(s)[0]) && !is_space(trimmed(s).last()),
        trimmed(s).len() == 0 <==> (forall|i: int| 0 <= i < s.len() ==> is_space(#[trigger] s[i])),
{
    lemma_seek(s, Class::NotSpace, 0);
    let head = trimmed_start(s);
    lemma_trimmed_end(head);
    if head.len() > 0 {
        assert(head[0] == s[seek(s, Class::NotSpace, 0)]);
        assert(!is_space(head[0]));
        assert(trimmed(s)[0] == head[0]);
    }
}

proof fn lemma_trimmed_end(s: Seq<char>)
    ensures
        trimmed_end(s).len() <= s.len(),
        trimmed_end(s) == s.take(trimmed_end(s).len() as int),
        trimmed_end(s).len() > 0 ==> !is_space(trimmed_end(s).last()),
        s.len() > 0 && !is_space(s[0]) ==> trimmed_end(s).len() > 0,
    decreases s.len(),
{
    if s.len() > 0 && is_space(s.last()) {
        lemma_trimmed_end(s.drop_last());
    }
}

/// A trimmed text is a stretch of the text.
pub proof fn trimmed_is_a_stretch(s: Seq<char>)
    ensures
        exists|from: int, to: int|
            0 <= from <= to <= s.len() && trimmed(s) == #[trigger] s.subrange(from, to),
{
    lemma_seek(s, Class::NotSpace, 0);
    let from = seek(s, Class::NotSpace, 0);
    lemma_trimmed_end(trimmed_start(s));
    let to = from + trimmed(s).len();
    assert(trimmed(s) == s.subrange(from, to));
}

/// A text without white space at either end is trimmed already.
pub proof fn trimming_leaves_the_trimmed(s: Seq<char>)
    requires
        s.len() > 0 ==> !is_space(s[0]) && !is_space(s.last()),
    ensures
        trimmed(s) == s,
{
    assert(seek(s, Class::NotSpace, 0) == 0);
    assert(trimmed_start(s) == s);
}

/// Whether `prefix` stands at the start of `s`.
pub open spec fn starts_with(s: Seq<char>, prefix: Seq<char>) -> bool {
    prefix.len() <= s.len() && s.take(prefix.len() as int) == prefix
}

/// Tests whether a text stands at the start of another.
pub fn has_prefix(s: &[char], prefix: &str) -> (r: bool)
    ensures
        r == starts_with(s@, prefix@),
{
    let needle = chars_of(prefix);
    matches_at(s, &needle, 0)
}

/// Whether `needle` stands in `s` at position `at`.
pub open spec fn occurs_at(s: Seq<char>, needle: Seq<char>, at: int) -> bool {
    0 <= at && at + needle.len() <= s.len() && s.subrange(at, at + needle.len()) == needle
}

/// Whether `needle` stands somewhere in `s`.
pub open spec fn contains(s: Seq<char>, needle: Seq<char>) -> bool {
    exists|at: int| occurs_at(s, needle, at)
}

/// The first position at or after `from` where `needle` stands.
pub open spec fn position(s: Seq<char>, needle: Seq<char>, from: int) -> Option<int>
    decreases s.len() - from + 1,
{
    if from > s.len() {
        None
    } else if occurs_at(s, needle, from) {
        Some(from)
    } else {
        position(s, needle, from + 1)
    }
}

/// What `position` finds, stated by its properties.
pub proof fn lemma_position(s: Seq<char>, needle: Seq<char>, from: int)
    requires
        0 <= from,
    ensures
        match position(s, needle, from) {
            Some(at) => {
                &&& from <= at
                &&& occurs_at(s, needle, at)
                &&& forall|k: int| from <= k < at ==> !#[trigger] occurs_at(s, needle, k)
            },
            None => forall|k: int| from <= k ==> !#[trigger] occurs_at(s, needle, k),
        },
    decreases s.len() - from + 1,
{
    if from <= s.len() && !occurs_at(s, needle, from) {
        lemma_position(s, needle, from + 1);
    }
}

/// Tests whether `needle` stands in `s` at position `at`.
pub fn matches_at(s: &[char], needle: &[char], at: usize) -> (r: bool)
    requires
        at <= s@.len(),
    ensures
        r == occurs_at(s@, needle@, at as int),
        at == 0 ==> r == starts_with(s@, needle@),
{
    if needle.len() > s.len() - at {
        return false;
    }
    let part = slice_subrange(s, at, at + needle.len());
    assert(at == 0 ==> s@.subrange(0, needle@.len() as int) == s@.take(needle@.len() as int));
    same(part, needle)
}

/// Looks for the first occurrence of `needle` at or after `from`.
pub fn find_text(s: &[char], needle: &[char], from: usize) -> (r: Option<usize>)
    requires
        from <= s@.len(),
    ensures
        match r {
            Some(at) => position(s@, needle@, from as int) == Some(at as int),
            None => position(s@, needle@, from as int) is None,
        },
        r matches Some(at) ==> from <= at && at + needle@.len() <= s@.len() && occurs_at(
            s@,
            needle@,
            at as int,
        ),
{
    let mut i: usize = from;
    while i < s.len()
        invariant
            from <= i <= s@.len(),
            position(s@, needle@, from as int) == position(s@, needle@, i as int),
        decreases s@.len() - i,
    {
        if matches_at(s, needle, i) {
            return Some(i);
        }
        i = i + 1;
    }
    assert(position(s@, needle@, (s@.len() + 1) as int) is None);
    if matches_at(s, needle, i) {
        Some(i)
    } else {
        None
    }
}

/// Tests whether a text holds another.
pub fn has_text(s: &[char], needle: &str) -> (r: bool)
    ensures
        r == contains(s@, needle@),
{
    let needle_chars = chars_of(needle);
    proof {
        lemma_position(s@, needle@, 0);
    }
    let found = find_text(s, &needle_chars, 0);
    assert(found is Some ==> occurs_at(s@, needle@, found->0 as int));
    found.is_some()
}

/// What a text that may be missing holds.
pub open spec fn maybe_text(text: Option<String>) -> Option<Seq<char>> {
    match text {
        Some(text) => Some(text@),
        None => None,
    }
}

/// Case is a matter of the letters of ASCII alone: the letters from `A` to `Z`
/// and from `a` to `z` go with each other in their order, and every other
/// character is its own lower and upper case.
pub proof fn letters_change_case(c: char)
    ensures
        'A' <= c <= 'Z' ==> lower(c) as int - 'a' as int == c as int - 'A' as int,
        'a' <= c <= 'z' ==> upper(c) as int - 'A' as int == c as int - 'a' as int,
        !('A' <= c <= 'Z') ==> lower(c) == c,
        !('a' <= c <= 'z') ==> upper(c) == c,
        lower(lower(c)) == lower(c) && lower(upper(c)) == lower(c),
        upper(upper(c)) == upper(c) && upper(lower(c)) == upper(c),
{
}

/// A text keeps its length in lower and upper case, and each character has the
/// case of its own.
pub proof fn texts_change_case(s: Seq<char>, t: Seq<char>)
    ensures
        lowered(s).len() == s.len() && uppered(s).len() == s.len(),
        lowered(s + t) == lowered(s) + lowered(t),
        uppered(s + t) == uppered(s) + uppered(t),
        lowered(lowered(s)) == lowered(s) && uppered(uppered(s)) == uppered(s),
        lowered(uppered(s)) == lowered(s) && uppered(lowered(s)) == uppered(s),
{
    assert(lowered(s + t) =~= lowered(s) + lowered(t));
    assert(uppered(s + t) =~= uppered(s) + uppered(t));
    assert(lowered(lowered(s)) =~= lowered(s));
    assert(uppered(uppered(s)) =~= uppered(s));
    assert(lowered(uppered(s)) =~= lowered(s));
    assert(uppered(lowered(s)) =~= uppered(s));
}

/// Of the characters of ASCII, those from `!` to `~` are no white space, and the
/// space, the tab and the ends of lines are.
pub proof fn visible_characters_are_no_space(c: char)
    ensures
        '!' <= c <= '~' ==> !is_space(c) && !is_ascii_space(c),
        c == ' ' || c == '\t' || c == '\n' || c == '\r' ==> is_space(c) && is_ascii_space(c),
        is_ascii_space(c) ==> is_space(c),
{
}

/// Whether a text is white space and nothing else.
pub open spec fn all_space(s: Seq<char>) -> bool {
    forall|i: int| 0 <= i < s.len() ==> is_space(#[trigger] s[i])
}

/// The first character of a class is found where it stands.
pub proof fn seek_finds_first(s: Seq<char>, class: Class, from: int, at: int)
    requires
        0 <= from <= at <= s.len(),
        at < s.len() ==> class.holds(s[at]),
        forall|i: int| from <= i < at ==> !class.holds(#[trigger] s[i]),
    ensures
        seek(s, class, from) == at,
    decreases at - from,
{
    if from < at {
        seek_finds_first(s, class, from + 1, at);
    }
}

/// White space around a text is cut, and nothing else: whatever white space is
/// put around a text that has none at its ends, trimming gives back the text.
pub proof fn trimming_cuts_space_around(before: Seq<char>, text: Seq<char>, after: Seq<char>)
    requires
        all_space(before),
        all_space(after),
        text.len() > 0 ==> !is_space(text[0]) && !is_space(text.last()),
    ensures
        trimmed(before + text + after) == text,
{
    let s = before + text + after;
    if text.len() == 0 {
        assert forall|i: int| 0 <= i < s.len() implies is_space(#[trigger] s[i]) by {
            if i < before.len() {
                assert(is_space(before[i]));
            } else {
                assert(is_space(after[i - before.len()]));
            }
        }
        trimmed_has_no_space_around(s);
        assert(trimmed(s) =~= text);
    } else {
        let at = before.len() as int;
        assert forall|i: int| 0 <= i < at implies !Class::NotSpace.holds(#[trigger] s[i]) by {
            assert(is_space(before[i]));
        }
        assert(s[at] == text[0]);
        seek_finds_first(s, Class::NotSpace, 0, at);
        assert(trimmed_start(s) =~= text + after);
        lemma_cut_end(text, after);
    }
}

proof fn lemma_cut_end(text: Seq<char>, after: Seq<char>)
    requires
        all_space(after),
        text.len() > 0 ==> !is_space(text.last()),
    ensures
        trimmed_end(text + after) == text,
    decreases after.len(),
{
    if after.len() == 0 {
        assert(text + after =~= text);
    } else {
        assert((text + after).last() == after.last());
        assert(is_space(after[after.len() - 1]));
        assert((text + after).drop_last() =~= text + after.drop_last());
        assert(all_space(after.drop_last()));
        lemma_cut_end(text, after.drop_last());
    }
}

/// A text holds another exactly when it is that text with something before and
/// after it.
pub proof fn held_text_stands_between(s: Seq<char>, needle: Seq<char>)
    ensures
        contains(s, needle) <==> exists|before: Seq<char>, after: Seq<char>|
            s == #[trigger] (before + needle + after),
{
    if contains(s, needle) {
        let at = choose|at: int| occurs_at(s, needle, at);
        let before = s.take(at);
        let after = s.skip(at + needle.len());
        assert(s =~= before + needle + after);
    }
    if exists|before: Seq<char>, after: Seq<char>| s == #[trigger] (before + needle + after) {
        let (before, after) = choose|before: Seq<char>, after: Seq<char>|
            s == #[trigger] (before + needle + after);
        let at = before.len() as int;
        assert(s.subrange(at, at + needle.len()) =~= needle);
        assert(occurs_at(s, needle, at));
    }
}

/// A text starts with another exactly when it is that text with something after
/// it.
pub proof fn prefix_stands_first(s: Seq<char>, prefix: Seq<char>)
    ensures
        starts_with(s, prefix) <==> exists|after: Seq<char>| s == #[trigger] (prefix + after),
{
    if starts_with(s, prefix) {
        assert(s =~= prefix + s.skip(prefix.len() as int));
    }
    if exists|after: Seq<char>| s == #[trigger] (prefix + after) {
        let after = choose|after: Seq<char>| s == #[trigger] (prefix + after);
        assert(s.take(prefix.len() as int) =~= prefix);
    }
}

/// The first place of a text in another is a place of it, and none is before it;
/// where no place is found, there is none.
pub proof fn first_place_is_first(s: Seq<char>, needle: Seq<char>, from: int, at: int)
    requires
        0 <= from <= at,
        occurs_at(s, needle, at),
        forall|k: int| from <= k < at ==> !#[trigger] occurs_at(s, needle, k),
    ensures
        position(s, needle, from) == Some(at),
{
    lemma_position(s, needle, from);
}

/// The white space of Unicode are the controls from tab to carriage return, the
/// spaces, and the separators of lines and paragraphs; that of ASCII are those
/// of them that are ASCII, without the vertical tab.
pub proof fn white_space_is_listed(c: char)
    ensures
        is_space(c) <==> '\t' <= c <= '\r' || c == ' ' || c == '\u{85}' || c == '\u{a0}' || c
            == '\u{1680}' || '\u{2000}' <= c <= '\u{200a}' || c == '\u{2028}' || c == '\u{2029}' || c
            == '\u{202f}' || c == '\u{205f}' || c == '\u{3000}',
        is_ascii_space(c) <==> is_space(c) && c < '\u{80}' && c != '\u{b}',
{
}

} // verus!
