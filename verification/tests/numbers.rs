//! Numbers and texts, held against those of std.

use radxa_penta_top_hat_rs::binary64::Binary64;
use radxa_penta_top_hat_rs::number::{parse_signed, parse_unsigned, push_decimal, push_int, push_two_digits};
use radxa_penta_top_hat_rs::order::comes_before;
use radxa_penta_top_hat_rs::split::{split_csv, split_lines, split_words};
use radxa_penta_top_hat_rs::text::{chars_of, lower_text, space, to_upper, trim};

fn number(value: f64) -> Binary64 {
    Binary64::from_bits(value.to_bits())
}

const TEXTS: [&str; 14] = [
    "",
    " ",
    "a",
    " a b ",
    "a\n",
    "a\r\nb\n\nc",
    "\r\n",
    "a\rb",
    "last\r",
    "\u{2003}x\u{85}y\u{a0}",
    "\u{3000}",
    "one,two",
    "\tTab\u{b}\u{c} Feed",
    "\u{e4}\u{c4} Zz",
];

fn joined(parts: &[&[char]]) -> Vec<String> {
    parts.iter().map(|part| part.iter().collect()).collect()
}

#[test]
fn texts_are_cut_as_std_cuts_them() {
    for text in TEXTS {
        let chars = chars_of(text);
        assert_eq!(trim(&chars).iter().collect::<String>(), text.trim());
        assert_eq!(joined(&split_lines(&chars)), text.lines().collect::<Vec<_>>());
        assert_eq!(joined(&split_words(&chars)), text.split_whitespace().collect::<Vec<_>>());
        assert_eq!(
            lower_text(&chars).iter().collect::<String>(),
            text.to_ascii_lowercase()
        );
        let csv: Vec<String> = text
            .split(',')
            .map(str::trim)
            .filter(|item| !item.is_empty())
            .map(str::to_string)
            .collect();
        assert_eq!(split_csv(text), csv);
    }
}

#[test]
fn white_space_and_cases_are_those_of_std() {
    for c in '\0'..=char::MAX {
        assert_eq!(space(c), c.is_whitespace(), "{:x}", c as u32);
        assert_eq!(to_upper(c), c.to_ascii_uppercase());
    }
}

#[test]
fn texts_are_ordered_as_strings_are() {
    for a in TEXTS {
        for b in TEXTS {
            assert_eq!(comes_before(&chars_of(a), &chars_of(b)), a < b);
        }
    }
}

#[test]
fn integers_are_read_as_std_reads_them() {
    for text in [
        "", "+", "-", "0", "-0", "+7", "007", "255", "256", "4294967295", "4294967296",
        "18446744073709551615", "18446744073709551616", "-9223372036854775808", "-9223372036854775809",
        "1_0", " 1", "1 ", "0x1", "--1", "+-1",
    ] {
        let chars = chars_of(text);
        assert_eq!(parse_unsigned(&chars, u64::MAX), text.parse::<u64>().ok(), "{text}");
        assert_eq!(
            parse_unsigned(&chars, u64::from(u8::MAX)),
            text.parse::<u8>().ok().map(u64::from),
            "{text}"
        );
        assert_eq!(
            parse_signed(&chars, i64::MIN, i64::MAX),
            text.parse::<i64>().ok(),
            "{text}"
        );
    }
}

#[test]
fn integers_are_printed_as_std_prints_them() {
    for n in [0, 1, 9, 10, 99, 100, 12_345, u64::MAX] {
        let mut out = String::new();
        push_decimal(&mut out, n);
        push_two_digits(&mut out, n);
        assert_eq!(out, format!("{n}{n:02}"));
    }
    for n in [0, -1, 40, i64::MIN, i64::MAX] {
        let mut out = String::new();
        push_int(&mut out, n);
        assert_eq!(out, n.to_string());
    }
}

#[test]
fn numbers_are_ordered_as_std_orders_them() {
    let values = [
        f64::NAN,
        f64::NEG_INFINITY,
        f64::MIN,
        -1.5,
        -f64::MIN_POSITIVE,
        -5e-324,
        -0.0,
        0.0,
        5e-324,
        1e-310,
        f64::MIN_POSITIVE,
        0.1,
        1.0,
        54.999_999_999_999_99,
        55.0,
        f64::MAX,
        f64::INFINITY,
    ];
    for a in values {
        assert_eq!(number(a).nan_test(), a.is_nan());
        assert_eq!(number(a).finite_test(), a.is_finite());
        for b in values {
            assert_eq!(number(a).lt(number(b)), a < b, "{a} {b}");
            assert_eq!(number(a).ge(number(b)), a >= b, "{a} {b}");
        }
    }
}

#[test]
fn integers_have_their_encodings() {
    for n in [0, 1, -1, 2, 3, 47, 255, 256, -300, 1 << 30, i32::MAX, i32::MIN, 123_456_789] {
        assert_eq!(Binary64::from_int(n), number(f64::from(n)), "{n}");
    }
}

#[test]
fn numbers_are_cut_to_whole_ones() {
    for value in [0.0, 0.999, 1.0, 1.5, 1e15, 9.007_199_254_740_993e15, 1.8e19, 1e20, f64::MAX] {
        assert_eq!(number(value).trunc(), value as u64, "{value}");
    }
    for value in [0.0, 0.5, -0.5, 1e-7, 45.125, -45.125, 1e9] {
        assert_eq!(number(value).micros(), (value * 1e6).trunc() as i64, "{value}");
    }
    assert!(number(1e19).clock_test());
    assert!(!number(1e20).clock_test());
}

#[test]
fn joined_items_are_split_again() {
    for items in [vec![], vec!["md127"], vec!["md127", "sda 1", "x"]] {
        assert_eq!(split_csv(&items.join(",")), items);
    }
    assert_eq!(split_csv(" ,a b ,,\tc,"), vec!["a b", "c"]);
}
