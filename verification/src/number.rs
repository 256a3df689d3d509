//! Decimal numbers in text.

use vstd::prelude::*;
use vstd::slice::slice_subrange;

use crate::text::is_digit;

verus! {

/// The value of a digit.
pub open spec fn digit_value(c: char) -> nat {
    ((c as u32) - ('0' as u32)) as nat
}

/// The value of a row of digits.
pub open spec fn digits_value(s: Seq<char>) -> nat
    decreases s.len(),
{
    if s.len() == 0 {
        0
    } else {
        10 * digits_value(s.drop_last()) + digit_value(s.last())
    }
}

/// Whether a text is one or more digits and nothing else.
pub open spec fn is_digits(s: Seq<char>) -> bool {
    s.len() > 0 && forall|i: int| 0 <= i < s.len() ==> is_digit(#[trigger] s[i])
}

/// A text without a plus sign at its start.
pub open spec fn without_plus(s: Seq<char>) -> Seq<char> {
    if s.len() > 0 && s[0] == '+' {
        s.skip(1)
    } else {
        s
    }
}

/// The number that a text writes down: digits, with or without a plus sign
/// before them, for a value of at most `max`.
pub open spec fn unsigned(s: Seq<char>, max: int) -> Option<int> {
    let digits = without_plus(s);
    if is_digits(digits) && digits_value(digits) <= max {
        Some(digits_value(digits) as int)
    } else {
        None
    }
}

/// The number that a text writes down: digits, with or without a sign before
/// them, for a value from `min` to `max`.
pub open spec fn signed(s: Seq<char>, min: int, max: int) -> Option<int> {
    if s.len() > 0 && s[0] == '-' {
        let digits = s.skip(1);
        if is_digits(digits) && -digits_value(digits) >= min {
            Some(-digits_value(digits))
        } else {
            None
        }
    } else {
        unsigned(s, max)
    }
}

proof fn lemma_prefix_value(s: Seq<char>, n: int)
    requires
        0 <= n <= s.len(),
    ensures
        digits_value(s.take(n)) <= digits_value(s),
    decreases s.len(),
{
    if n == s.len() {
        assert(s.take(n) == s);
    } else {
        lemma_prefix_value(s.drop_last(), n);
        assert(s.drop_last().take(n) == s.take(n));
    }
}

/// Reads a row of digits with a value of at most `max`.
fn parse_digits(s: &[char], max: u64) -> (r: Option<u64>)
    ensures
        match r {
            Some(v) => is_digits(s@) && digits_value(s@) <= max && v == digits_value(s@),
            None => !(is_digits(s@) && digits_value(s@) <= max),
        },
{
    if s.len() == 0 {
        return None;
    }
    let mut value: u64 = 0;
    let mut i: usize = 0;
    while i < s.len()
        invariant
            i <= s@.len(),
            forall|k: int| 0 <= k < i ==> is_digit(#[trigger] s@[k]),
            value == digits_value(s@.take(i as int)),
            value <= max,
        decreases s@.len() - i,
    {
        let c = s[i];
        if !('0' <= c && c <= '9') {
            assert(!is_digit(s@[i as int]));
            return None;
        }
        let digit: u64 = (c as u32 - '0' as u32) as u64;
        assert(s@.take(i + 1).drop_last() == s@.take(i as int));
        assert(digits_value(s@.take(i + 1)) == 10 * value + digit);
        proof {
            lemma_prefix_value(s@, i + 1);
        }
        if value > max / 10 {
            assert(10 * value > max) by (nonlinear_arith)
                requires
                    value > max / 10,
            ;
            return None;
        }
        assert(10 * value <= max) by (nonlinear_arith)
            requires
                value <= max / 10,
        ;
        if digit > max - 10 * value {
            return None;
        }
        value = 10 * value + digit;
        i = i + 1;
    }
    assert(s@.take(i as int) == s@);
    Some(value)
}

/// Reads a number without a minus sign.
pub fn parse_unsigned(s: &[char], max: u64) -> (r: Option<u64>)
    ensures
        match r {
            Some(v) => unsigned(s@, max as int) == Some(v as int),
            None => unsigned(s@, max as int) is None,
        },
        r matches Some(v) ==> v <= max,
{
    if s.len() > 0 && s[0] == '+' {
        let digits = slice_subrange(s, 1, s.len());
        assert(digits@ == s@.skip(1));
        parse_digits(digits, max)
    } else {
        parse_digits(s, max)
    }
}

/// Reads a number that may have a minus sign.
pub fn parse_signed(s: &[char], min: i64, max: i64) -> (r: Option<i64>)
    requires
        min <= 0 <= max,
    ensures
        match r {
            Some(v) => signed(s@, min as int, max as int) == Some(v as int),
            None => signed(s@, min as int, max as int) is None,
        },
        r matches Some(v) ==> min <= v <= max,
{
    if s.len() > 0 && s[0] == '-' {
        let digits = slice_subrange(s, 1, s.len());
        assert(digits@ == s@.skip(1));
        let limit: u64 = (-(min as i128)) as u64;
        match parse_digits(digits, limit) {
            Some(v) => {
                let negated: i64 = (-(v as i128)) as i64;
                Some(negated)
            },
            None => None,
        }
    } else {
        match parse_unsigned(s, max as u64) {
            Some(v) => Some(v as i64),
            None => None,
        }
    }
}

/// The digit with a value below ten.
pub open spec fn digit_char(n: nat) -> char {
    (('0' as u32) + n) as char
}

/// The decimal digits of a number.
pub open spec fn decimal(n: nat) -> Seq<char>
    decreases n,
{
    if n < 10 {
        seq![digit_char(n)]
    } else {
        decimal(n / 10).push(digit_char(n % 10))
    }
}

/// The decimal digits of an integer, after a minus sign where it is negative.
pub open spec fn decimal_int(n: int) -> Seq<char> {
    if n < 0 {
        seq!['-'] + decimal((-n) as nat)
    } else {
        decimal(n as nat)
    }
}

/// A number in at least two digits.
pub open spec fn two_digits(n: nat) -> Seq<char> {
    if n < 10 {
        seq!['0'] + decimal(n)
    } else {
        decimal(n)
    }
}

/// Appends a number to a text.
pub fn push_decimal(out: &mut String, n: u64)
    ensures
        final(out)@ == old(out)@ + decimal(n as nat),
    decreases n,
{
    let last: u8 = (n % 10) as u8;
    if n >= 10 {
        push_decimal(out, n / 10);
    }
    out.push((48 + last) as char);
}

/// Appends an integer to a text.
pub fn push_int(out: &mut String, n: i64)
    ensures
        final(out)@ == old(out)@ + decimal_int(n as int),
{
    if n < 0 {
        out.push('-');
        push_decimal(out, (-(n as i128)) as u64);
    } else {
        push_decimal(out, n as u64);
    }
}

/// Appends a number in at least two digits.
pub fn push_two_digits(out: &mut String, n: u64)
    ensures
        final(out)@ == old(out)@ + two_digits(n as nat),
{
    if n < 10 {
        out.push('0');
    }
    push_decimal(out, n);
}

proof fn lemma_decimal(n: nat)
    ensures
        is_digits(decimal(n)),
        digits_value(decimal(n)) == n,
    decreases n,
{
    if n < 10 {
        let s = decimal(n);
        assert(s.drop_last() == Seq::<char>::empty());
        assert(digits_value(s.drop_last()) == 0);
    } else {
        lemma_decimal(n / 10);
        assert(decimal(n).drop_last() == decimal(n / 10));
    }
}

/// A number that is written down in decimal digits reads back as itself.
pub proof fn written_number_reads_back(n: nat, max: int)
    requires
        n <= max,
    ensures
        unsigned(decimal(n), max) == Some(n as int),
{
    lemma_decimal(n);
    assert(is_digit(decimal(n)[0]));
}

proof fn lemma_leading_zero(s: Seq<char>)
    ensures
        digits_value(seq!['0'] + s) == digits_value(s),
    decreases s.len(),
{
    let t = seq!['0'] + s;
    if s.len() == 0 {
        assert(t.drop_last() =~= Seq::<char>::empty());
        assert(digits_value(t.drop_last()) == 0);
        assert(t.last() == '0');
    } else {
        assert(t.drop_last() =~= seq!['0'] + s.drop_last());
        lemma_leading_zero(s.drop_last());
    }
}

/// A number may be written with zeros before it and with a plus sign before
/// that; neither changes it.
pub proof fn zeros_and_plus_do_not_count(s: Seq<char>, max: int)
    requires
        is_digits(s),
    ensures
        unsigned(seq!['0'] + s, max) == unsigned(s, max),
        unsigned(seq!['+'] + s, max) == unsigned(s, max),
        unsigned(seq!['+', '+'] + s, max) is None,
        unsigned(seq!['-'] + s, max) is None,
{
    let zero = seq!['0'] + s;
    lemma_leading_zero(s);
    assert(is_digit(s[0]));
    assert forall|i: int| 0 <= i < zero.len() implies is_digit(#[trigger] zero[i]) by {
        if i > 0 {
            assert(zero[i] == s[i - 1]);
        }
    }
    assert(zero[0] == '0');
    let plus = seq!['+'] + s;
    assert(plus.skip(1) =~= s);
    let two = seq!['+', '+'] + s;
    assert(two.skip(1)[0] == '+');
    assert(!is_digit(two.skip(1)[0]));
    let minus = seq!['-'] + s;
    assert(minus[0] == '-');
    assert(!is_digit(minus[0]));
}

/// What is read as a number is made of digits alone, but for one plus sign at
/// its start, has at least one digit, and is no greater than the greatest that
/// is allowed. A number that is greater is not read as another.
pub proof fn only_digits_are_numbers(s: Seq<char>, max: int)
    ensures
        unsigned(s, max) matches Some(n) ==> {
            &&& 0 <= n <= max
            &&& s.len() > 0 && is_digit(s.last())
            &&& is_digit(s[0]) || s[0] == '+'
            &&& forall|i: int| 1 <= i < s.len() ==> is_digit(#[trigger] s[i])
            &&& forall|most: int| #[trigger] unsigned(s, most) == if n <= most {
                Some(n)
            } else {
                None
            }
        },
{
    if unsigned(s, max) is Some {
        let digits = without_plus(s);
        assert(is_digit(digits[digits.len() - 1]));
        assert(is_digit(digits[0]));
        assert forall|i: int| 1 <= i < s.len() implies is_digit(#[trigger] s[i]) by {
            if s[0] == '+' {
                assert(s[i] == digits[i - 1]);
            } else {
                assert(s[i] == digits[i]);
            }
        }
        assert(s.last() == digits.last());
    }
}

/// A number that is written down has no zeros before it, and each digit that is
/// put after another counts ten times less.
pub proof fn written_numbers_are_shortest(n: nat)
    ensures
        is_digits(decimal(n)),
        n > 0 ==> decimal(n)[0] != '0',
        n == 0 ==> decimal(n) == seq!['0'],
        decimal(n).len() == 1 <==> n < 10,
        n >= 10 ==> decimal(n).len() == decimal(n / 10).len() + 1,
    decreases n,
{
    lemma_decimal(n);
    if n >= 10 {
        written_numbers_are_shortest(n / 10);
        assert(decimal(n)[0] == decimal(n / 10)[0]);
    }
}

/// An integer that is written down reads back as itself.
pub proof fn written_integer_reads_back(n: int, min: int, max: int)
    requires
        min <= n <= max,
        min <= 0 <= max,
    ensures
        signed(decimal_int(n), min, max) == Some(n),
        n >= 0 ==> decimal_int(n) == decimal(n as nat),
        n < 0 ==> decimal_int(n) == seq!['-'] + decimal((-n) as nat),
{
    if n < 0 {
        lemma_decimal((-n) as nat);
        let s = decimal_int(n);
        assert(s[0] == '-');
        assert(s.skip(1) =~= decimal((-n) as nat));
    } else {
        written_number_reads_back(n as nat, max);
        lemma_decimal(n as nat);
        assert(is_digit(decimal(n as nat)[0]));
    }
}

/// A number in two digits reads back as itself, and has two digits or more.
pub proof fn two_digits_read_back(n: nat, max: int)
    requires
        n <= max,
    ensures
        unsigned(two_digits(n), max) == Some(n as int),
        two_digits(n).len() >= 2,
        n < 100 ==> two_digits(n).len() == 2,
{
    written_number_reads_back(n, max);
    written_numbers_are_shortest(n);
    if n < 10 {
        zeros_and_plus_do_not_count(decimal(n), max);
        assert(two_digits(n) =~= seq!['0'] + decimal(n));
    } else {
        written_numbers_are_shortest(n / 10);
    }
}

} // verus!
