//! Splitting a text into lines, words and lists.

use vstd::prelude::*;
use vstd::slice::slice_subrange;

use crate::text::{
    all_space, find, is_space, lemma_seek, seek, seek_finds_first, string_of, trim, trimmed,
    trimmed_has_no_space_around, trimmed_is_a_stretch, trimming_leaves_the_trimmed, Class,
};

verus! {

/// The texts that a list of slices holds.
pub open spec fn texts(parts: Seq<&[char]>) -> Seq<Seq<char>> {
    Seq::new(parts.len(), |i: int| parts[i]@)
}

/// The texts that a list of strings holds.
pub open spec fn views(parts: Seq<String>) -> Seq<Seq<char>> {
    Seq::new(parts.len(), |i: int| parts[i]@)
}

/// A line without the carriage return that comes before its line feed.
pub open spec fn without_return(line: Seq<char>) -> Seq<char> {
    if line.len() > 0 && line.last() == '\r' {
        line.drop_last()
    } else {
        line
    }
}

/// The lines of a text. A line ends at a line feed, or at a carriage return and
/// the line feed after it; neither belongs to the line, and the last line may
/// do without.
pub open spec fn lines(s: Seq<char>) -> Seq<Seq<char>>
    decreases s.len(),
{
    let end = seek(s, Class::One('\n'), 0);
    if s.len() == 0 {
        Seq::empty()
    } else if end < 0 || end >= s.len() {
        seq![s]
    } else {
        seq![without_return(s.take(end))] + lines(s.skip(end + 1))
    }
}

/// Splits a text into its lines.
pub fn split_lines<'a>(s: &'a [char]) -> (r: Vec<&'a [char]>)
    ensures
        texts(r@) == lines(s@),
{
    let mut out: Vec<&'a [char]> = Vec::new();
    let mut rest: &'a [char] = s;
    while rest.len() > 0
        invariant
            texts(out@) + lines(rest@) == lines(s@),
        decreases rest@.len(),
    {
        let ghost before = texts(out@);
        let end: usize = find(rest, Class::One('\n'), 0);
        if end == rest.len() {
            out.push(rest);
            assert(texts(out@) == before + seq![rest@]);
            return out;
        }
        let line: &'a [char] = if end > 0 && rest[end - 1] == '\r' {
            slice_subrange(rest, 0, end - 1)
        } else {
            slice_subrange(rest, 0, end)
        };
        assert(line@ == without_return(rest@.take(end as int)));
        let next: &'a [char] = slice_subrange(rest, end + 1, rest.len());
        assert(next@ == rest@.skip(end + 1));
        out.push(line);
        assert(texts(out@) == before + seq![line@]);
        assert(texts(out@) + lines(next@) == before + lines(rest@));
        rest = next;
    }
    out
}

/// The words of a text: what stands between stretches of white space.
pub open spec fn words(s: Seq<char>) -> Seq<Seq<char>>
    decreases s.len(),
{
    let start = seek(s, Class::NotSpace, 0);
    let end = seek(s, Class::Space, start);
    if start < 0 || start >= s.len() || end <= start || end > s.len() {
        Seq::empty()
    } else {
        seq![s.subrange(start, end)] + words(s.skip(end))
    }
}

/// Splits a text into its words.
pub fn split_words<'a>(s: &'a [char]) -> (r: Vec<&'a [char]>)
    ensures
        texts(r@) == words(s@),
{
    let mut out: Vec<&'a [char]> = Vec::new();
    let mut rest: &'a [char] = s;
    loop
        invariant
            texts(out@) + words(rest@) == words(s@),
        decreases rest@.len(),
    {
        let ghost before = texts(out@);
        let start: usize = find(rest, Class::NotSpace, 0);
        if start == rest.len() {
            assert(words(rest@) == Seq::<Seq<char>>::empty());
            assert(texts(out@) + words(rest@) == texts(out@));
            return out;
        }
        let end: usize = find(rest, Class::Space, start);
        let word: &'a [char] = slice_subrange(rest, start, end);
        let next: &'a [char] = slice_subrange(rest, end, rest.len());
        assert(next@ == rest@.skip(end as int));
        out.push(word);
        assert(texts(out@) == before + seq![word@]);
        assert(texts(out@) + words(next@) == before + words(rest@));
        rest = next;
    }
}

/// The parts of a text between the occurrences of a separator. There is one
/// more part than there are separators.
pub open spec fn parts(s: Seq<char>, separator: char) -> Seq<Seq<char>>
    decreases s.len(),
{
    let end = seek(s, Class::One(separator), 0);
    if end < 0 || end >= s.len() {
        seq![s]
    } else {
        seq![s.take(end)] + parts(s.skip(end + 1), separator)
    }
}

/// The items of a comma-separated list, without the white space around them;
/// empty items are left out.
pub open spec fn csv(s: Seq<char>) -> Seq<Seq<char>> {
    trimmed_nonempty(parts(s, ','))
}

/// The texts of a list without the white space around them, but for those that
/// are then empty.
pub open spec fn trimmed_nonempty(items: Seq<Seq<char>>) -> Seq<Seq<char>>
    decreases items.len(),
{
    if items.len() == 0 {
        Seq::empty()
    } else {
        let item = trimmed(items[0]);
        let rest = trimmed_nonempty(items.drop_first());
        if item.len() == 0 {
            rest
        } else {
            seq![item] + rest
        }
    }
}

/// Splits a comma-separated list into its items.
pub fn split_csv(value: &str) -> (r: Vec<String>)
    ensures
        views(r@) == csv(value@),
{
    let chars = crate::text::chars_of(value);
    let mut out: Vec<String> = Vec::new();
    let mut rest: &[char] = chars.as_slice();
    loop
        invariant
            views(out@) + csv(rest@) == csv(value@),
        decreases rest@.len(),
    {
        let ghost before = views(out@);
        let end: usize = find(rest, Class::One(','), 0);
        let item = trim(slice_subrange(rest, 0, end));
        assert(rest@.subrange(0, end as int) == rest@.take(end as int));
        if item.len() > 0 {
            out.push(string_of(item));
            assert(views(out@) == before + seq![item@]);
        }
        if end == rest.len() {
            proof {
                let all = parts(rest@, ',');
                assert(rest@.take(end as int) == rest@);
                assert(all == seq![rest@]);
                assert(all.drop_first() == Seq::<Seq<char>>::empty());
                assert(trimmed_nonempty(all.drop_first()) == Seq::<Seq<char>>::empty());
                assert(views(out@) == before + csv(rest@));
            }
            return out;
        }
        let next: &[char] = slice_subrange(rest, end + 1, rest.len());
        proof {
            let all = parts(rest@, ',');
            assert(next@ == rest@.skip(end + 1));
            assert(all[0] == rest@.take(end as int));
            assert(all.drop_first() == parts(next@, ','));
            assert(views(out@) + csv(next@) == before + csv(rest@));
        }
        rest = next;
    }
}

/// Texts in one, with commas between them.
pub open spec fn comma_separated(texts: Seq<Seq<char>>) -> Seq<char>
    decreases texts.len(),
{
    if texts.len() == 0 {
        Seq::empty()
    } else if texts.len() == 1 {
        texts[0]
    } else {
        comma_separated(texts.drop_last()) + ","@ + texts.last()
    }
}

/// Whether a text can stand in a comma-separated list as it is: it is not empty,
/// has no white space around it and holds no comma.
pub open spec fn is_item(text: Seq<char>) -> bool {
    text.len() > 0 && trimmed(text) == text && !text.contains(',')
}

proof fn lemma_parts(s: Seq<char>, separator: char)
    ensures
        forall|i: int| 0 <= i < parts(s, separator).len() ==> !(#[trigger] parts(
            s,
            separator,
        )[i]).contains(separator),
    decreases s.len(),
{
    let end = seek(s, Class::One(separator), 0);
    lemma_seek(s, Class::One(separator), 0);
    if end < s.len() {
        let rest = s.skip(end + 1);
        lemma_parts(rest, separator);
        assert forall|i: int| 0 <= i < parts(s, separator).len() implies !(#[trigger] parts(
            s,
            separator,
        )[i]).contains(separator) by {
            if i > 0 {
                assert(parts(s, separator)[i] == parts(rest, separator)[i - 1]);
            }
        }
    }
}

proof fn lemma_kept_items(texts: Seq<Seq<char>>)
    requires
        forall|i: int| 0 <= i < texts.len() ==> !(#[trigger] texts[i]).contains(','),
    ensures
        forall|i: int|
            0 <= i < trimmed_nonempty(texts).len() ==> is_item(
                #[trigger] trimmed_nonempty(texts)[i],
            ),
    decreases texts.len(),
{
    if texts.len() > 0 {
        let item = trimmed(texts[0]);
        let rest = texts.drop_first();
        assert forall|i: int| 0 <= i < rest.len() implies !(#[trigger] rest[i]).contains(',') by {
            assert(rest[i] == texts[i + 1]);
        }
        lemma_kept_items(rest);
        trimmed_has_no_space_around(texts[0]);
        trimming_leaves_the_trimmed(item);
        trimmed_is_a_stretch(texts[0]);
        assert(!texts[0].contains(','));
        assert(!item.contains(','));
        assert forall|i: int| 0 <= i < trimmed_nonempty(texts).len() implies is_item(
            #[trigger] trimmed_nonempty(texts)[i],
        ) by {
            if item.len() == 0 {
                assert(is_item(trimmed_nonempty(rest)[i]));
            } else if i > 0 {
                assert(trimmed_nonempty(texts)[i] == trimmed_nonempty(rest)[i - 1]);
            }
        }
    }
}

/// What a comma-separated list is split into are items: none is empty, has white
/// space around it or holds a comma.
pub proof fn lists_split_into_items(s: Seq<char>)
    ensures
        forall|i: int| 0 <= i < csv(s).len() ==> is_item(#[trigger] csv(s)[i]),
{
    lemma_parts(s, ',');
    lemma_kept_items(parts(s, ','));
}

proof fn lemma_first_item(items: Seq<Seq<char>>)
    requires
        items.len() > 1,
    ensures
        comma_separated(items) == items[0] + seq![','] + comma_separated(items.drop_first()),
    decreases items.len(),
{
    reveal_strlit(",");
    assert(","@ == seq![',']);
    let fewer = items.drop_last();
    let rest = items.drop_first();
    if items.len() > 2 {
        lemma_first_item(fewer);
        assert(fewer.drop_first() == rest.drop_last());
        assert(rest.last() == items.last());
    }
    assert(comma_separated(items) == comma_separated(fewer) + seq![','] + items.last());
    assert(comma_separated(items) == items[0] + seq![','] + comma_separated(rest));
}

proof fn lemma_seek_first(s: Seq<char>, class: Class, from: int, at: int)
    requires
        0 <= from <= at <= s.len(),
        at < s.len() ==> class.holds(s[at]),
        forall|i: int| from <= i < at ==> !class.holds(#[trigger] s[i]),
    ensures
        seek(s, class, from) == at,
    decreases at - from,
{
    if from < at {
        lemma_seek_first(s, class, from + 1, at);
    }
}

/// Items that are joined with commas are what the list is split into again.
pub proof fn joined_items_split_back(items: Seq<Seq<char>>)
    requires
        forall|i: int| 0 <= i < items.len() ==> is_item(#[trigger] items[i]),
    ensures
        csv(comma_separated(items)) == items,
    decreases items.len(),
{
    let s = comma_separated(items);
    if items.len() == 0 {
        assert(parts(s, ',') == seq![s]);
        assert(trimmed(s).len() == 0) by {
            trimmed_has_no_space_around(s);
        }
        assert(seq![s].drop_first() == Seq::<Seq<char>>::empty());
        assert(trimmed_nonempty(seq![s].drop_first()) == Seq::<Seq<char>>::empty());
        assert(csv(s) == items);
    } else {
        let first = items[0];
        assert(is_item(first));
        let at = first.len() as int;
        if items.len() == 1 {
            assert forall|i: int| 0 <= i < at implies !Class::One(',').holds(#[trigger] s[i]) by {
                assert(first.contains(s[i]));
            }
            lemma_seek_first(s, Class::One(','), 0, at);
            assert(parts(s, ',') == seq![s]);
            assert(seq![s].drop_first() == Seq::<Seq<char>>::empty());
            assert(trimmed_nonempty(Seq::<Seq<char>>::empty()) == Seq::<Seq<char>>::empty());
            assert(csv(s) == items);
        } else {
            let rest = items.drop_first();
            lemma_first_item(items);
            assert forall|i: int| 0 <= i < rest.len() implies is_item(#[trigger] rest[i]) by {
                assert(rest[i] == items[i + 1]);
            }
            joined_items_split_back(rest);
            assert forall|i: int| 0 <= i < at implies !Class::One(',').holds(#[trigger] s[i]) by {
                assert(s[i] == first[i]);
                assert(first.contains(s[i]));
            }
            lemma_seek_first(s, Class::One(','), 0, at);
            assert(s.take(at) == first);
            assert(s.skip(at + 1) == comma_separated(rest));
            let all = parts(s, ',');
            assert(all[0] == first);
            assert(all.drop_first() == parts(comma_separated(rest), ','));
            assert(csv(s) == items);
        }
    }
}

/// A line ends at its line feed, and a carriage return right before that belongs
/// to neither line. The text after is split for itself.
pub proof fn line_feeds_end_lines(line: Seq<char>, rest: Seq<char>)
    requires
        !line.contains('\n'),
    ensures
        line.len() == 0 || line.last() != '\r' ==> lines(line + seq!['\n'] + rest) == seq![line]
            + lines(rest),
        lines(line + seq!['\r', '\n'] + rest) == seq![line] + lines(rest),
{
    let plain = line + seq!['\n'] + rest;
    let at = line.len() as int;
    assert forall|i: int| 0 <= i < at implies !Class::One('\n').holds(#[trigger] plain[i]) by {
        assert(line.contains(line[i]));
    }
    assert(plain[at] == '\n');
    seek_finds_first(plain, Class::One('\n'), 0, at);
    assert(plain.take(at) =~= line);
    assert(plain.skip(at + 1) =~= rest);
    let dos = line + seq!['\r', '\n'] + rest;
    assert forall|i: int| 0 <= i < at + 1 implies !Class::One('\n').holds(#[trigger] dos[i]) by {
        if i < at {
            assert(line.contains(line[i]));
        }
    }
    assert(dos[at + 1] == '\n');
    seek_finds_first(dos, Class::One('\n'), 0, at + 1);
    assert(dos.take(at + 1).last() == '\r');
    assert(dos.take(at + 1).drop_last() =~= line);
    assert(dos.skip(at + 2) =~= rest);
}

/// A text without a line feed is one line, and an empty text has none.
pub proof fn text_without_line_feed_is_one_line(s: Seq<char>)
    requires
        !s.contains('\n'),
    ensures
        lines(s) == if s.len() == 0 {
            Seq::empty()
        } else {
            seq![s]
        },
{
    assert forall|i: int| 0 <= i < s.len() implies !Class::One('\n').holds(#[trigger] s[i]) by {
        assert(s.contains(s[i]));
    }
    seek_finds_first(s, Class::One('\n'), 0, s.len() as int);
}

/// No line holds a line feed.
pub proof fn no_line_holds_a_line_feed(s: Seq<char>)
    ensures
        forall|i: int| 0 <= i < lines(s).len() ==> !(#[trigger] lines(s)[i]).contains('\n'),
    decreases s.len(),
{
    let end = seek(s, Class::One('\n'), 0);
    lemma_seek(s, Class::One('\n'), 0);
    if s.len() > 0 && end < s.len() {
        let rest = s.skip(end + 1);
        no_line_holds_a_line_feed(rest);
        assert forall|i: int| 0 <= i < lines(s).len() implies !(#[trigger] lines(s)[i]).contains(
            '\n',
        ) by {
            if i > 0 {
                assert(lines(s)[i] == lines(rest)[i - 1]);
            }
        }
    }
}

proof fn lemma_words_skip_space(s: Seq<char>)
    requires
        s.len() > 0,
        is_space(s[0]),
    ensures
        words(s) == words(s.skip(1)),
{
    let rest = s.skip(1);
    lemma_seek(rest, Class::NotSpace, 0);
    let start = seek(rest, Class::NotSpace, 0);
    assert forall|i: int| 0 <= i < start + 1 implies !Class::NotSpace.holds(#[trigger] s[i]) by {
        if i > 0 {
            assert(s[i] == rest[i - 1]);
        }
    }
    if start < rest.len() {
        assert(s[start + 1] == rest[start]);
    }
    seek_finds_first(s, Class::NotSpace, 0, start + 1);
    if start < rest.len() {
        lemma_seek(rest, Class::Space, start);
        let end = seek(rest, Class::Space, start);
        assert forall|i: int| start + 1 <= i < end + 1 implies !Class::Space.holds(
            #[trigger] s[i],
        ) by {
            assert(s[i] == rest[i - 1]);
        }
        if end < rest.len() {
            assert(s[end + 1] == rest[end]);
        }
        seek_finds_first(s, Class::Space, start + 1, end + 1);
        assert(end > start);
        assert(s.subrange(start + 1, end + 1) =~= rest.subrange(start, end));
        assert(s.skip(end + 1) =~= rest.skip(end));
    }
}

/// White space parts words: the words of two texts with white space between them
/// are the words of the one and then those of the other.
pub proof fn space_parts_words(a: Seq<char>, gap: char, b: Seq<char>)
    requires
        is_space(gap),
    ensures
        words(a + seq![gap] + b) == words(a) + words(b),
    decreases a.len(),
{
    let s = a + seq![gap] + b;
    if a.len() == 0 {
        assert(s.skip(1) =~= b);
        lemma_words_skip_space(s);
        assert(words(a) =~= Seq::<Seq<char>>::empty());
        assert(words(s) =~= words(a) + words(b));
    } else if is_space(a[0]) {
        lemma_words_skip_space(s);
        lemma_words_skip_space(a);
        assert(s.skip(1) =~= a.skip(1) + seq![gap] + b);
        space_parts_words(a.skip(1), gap, b);
    } else {
        lemma_seek(a, Class::Space, 0);
        let end = seek(a, Class::Space, 0);
        assert(end > 0) by {
            if end == 0 {
                assert(Class::Space.holds(a[0]));
            }
        }
        seek_finds_first(a, Class::NotSpace, 0, 0);
        assert(s[0] == a[0]);
        seek_finds_first(s, Class::NotSpace, 0, 0);
        assert forall|i: int| 0 <= i < end implies !Class::Space.holds(#[trigger] s[i]) by {
            assert(s[i] == a[i]);
        }
        if end < a.len() {
            assert(s[end] == a[end]);
        } else {
            assert(s[end] == gap);
        }
        seek_finds_first(s, Class::Space, 0, end);
        assert(s.subrange(0, end) =~= a.subrange(0, end));
        assert(s.skip(end) =~= a.skip(end) + seq![gap] + b);
        space_parts_words(a.skip(end), gap, b);
        assert(words(s) =~= words(a) + words(b));
    }
}

/// A text without white space is one word, and a text of nothing else has none.
pub proof fn text_without_space_is_one_word(s: Seq<char>)
    ensures
        s.len() > 0 && (forall|i: int| 0 <= i < s.len() ==> !is_space(#[trigger] s[i])) ==> words(s)
            == seq![s],
        all_space(s) ==> words(s).len() == 0,
{
    if s.len() > 0 && (forall|i: int| 0 <= i < s.len() ==> !is_space(#[trigger] s[i])) {
        assert(!is_space(s[0]));
        seek_finds_first(s, Class::NotSpace, 0, 0);
        assert forall|i: int| 0 <= i < s.len() implies !Class::Space.holds(#[trigger] s[i]) by {
            assert(!is_space(s[i]));
        }
        seek_finds_first(s, Class::Space, 0, s.len() as int);
        assert(s.subrange(0, s.len() as int) =~= s);
        let rest = s.skip(s.len() as int);
        assert(seek(rest, Class::NotSpace, 0) == 0);
        assert(words(rest) =~= Seq::<Seq<char>>::empty());
        assert(words(s) =~= seq![s]);
    }
    if all_space(s) {
        assert forall|i: int| 0 <= i < s.len() implies !Class::NotSpace.holds(#[trigger] s[i]) by {
            assert(is_space(s[i]));
        }
        seek_finds_first(s, Class::NotSpace, 0, s.len() as int);
    }
}

/// A separator parts a text, and there is nothing to part without one.
pub proof fn separators_part_texts(a: Seq<char>, separator: char, b: Seq<char>)
    requires
        !a.contains(separator),
    ensures
        parts(a, separator) == seq![a],
        parts(a + seq![separator] + b, separator) == seq![a] + parts(b, separator),
{
    let at = a.len() as int;
    assert forall|i: int| 0 <= i < at implies !Class::One(separator).holds(#[trigger] a[i]) by {
        assert(a.contains(a[i]));
    }
    seek_finds_first(a, Class::One(separator), 0, at);
    let s = a + seq![separator] + b;
    assert forall|i: int| 0 <= i < at implies !Class::One(separator).holds(#[trigger] s[i]) by {
        assert(s[i] == a[i]);
    }
    assert(s[at] == separator);
    seek_finds_first(s, Class::One(separator), 0, at);
    assert(s.take(at) =~= a);
    assert(s.skip(at + 1) =~= b);
}

/// Every line is a stretch of the text.
pub proof fn lines_stand_in_the_text(s: Seq<char>, i: int)
    requires
        0 <= i < lines(s).len(),
    ensures
        exists|a: int, b: int|
            0 <= a <= b <= s.len() && lines(s)[i] == #[trigger] s.subrange(a, b),
    decreases s.len(),
{
    let end = seek(s, Class::One('\n'), 0);
    lemma_seek(s, Class::One('\n'), 0);
    if end >= s.len() {
        assert(s.subrange(0, s.len() as int) =~= s);
    } else if i == 0 {
        let line = s.take(end);
        if line.len() > 0 && line.last() == '\r' {
            assert(line.drop_last() =~= s.subrange(0, end - 1));
        } else {
            assert(line =~= s.subrange(0, end));
        }
        assert(lines(s)[0] == without_return(line));
    } else {
        let rest = s.skip(end + 1);
        lines_stand_in_the_text(rest, i - 1);
        let (a, b) = choose|a: int, b: int|
            0 <= a <= b <= rest.len() && lines(rest)[i - 1] == #[trigger] rest.subrange(a, b);
        assert(rest.subrange(a, b) =~= s.subrange(a + end + 1, b + end + 1));
        assert(lines(s)[i] == lines(rest)[i - 1]);
    }
}

/// The items of a list come in the order of the list, each without the white space
/// around it; a stretch between two commas that is nothing but white space is no
/// item, and does not end the list.
pub proof fn list_items_are_read_in_order(a: Seq<char>, rest: Seq<char>)
    requires
        !a.contains(','),
    ensures
        csv(a) == if trimmed(a).len() > 0 {
            seq![trimmed(a)]
        } else {
            Seq::empty()
        },
        csv(a + seq![','] + rest) == csv(a) + csv(rest),
{
    separators_part_texts(a, ',', rest);
    let none = Seq::<Seq<char>>::empty();
    let one = seq![a];
    assert(one.drop_first() =~= none);
    assert(trimmed_nonempty(none) =~= none);
    assert(csv(a) =~= if trimmed(a).len() > 0 {
        seq![trimmed(a)]
    } else {
        none
    });
    let all = one + parts(rest, ',');
    assert(all[0] == a);
    assert(all.drop_first() =~= parts(rest, ','));
    assert(csv(a + seq![','] + rest) =~= csv(a) + csv(rest));
}

} // verus!
