use barclock::number::{Fraction, Reading};
use barclock::text::{
    decimal_text, eq_ignore_case, holds, is_before, is_blank, join, lines,
    parse_unsigned, replace, signed_text, split_first, split_last, split_words, strip_end,
    strip_prefix, strip_start, to_lower, trim,
};
use barclock::time::{after, clamp, elapsed, milliseconds, seconds};

fn own(v: &[&str]) -> Vec<String> {
    v.iter().map(|s| s.to_string()).collect()
}

#[test]
fn trimming() {
    for s in ["", " ", " a b\t", "\u{a0}x\u{2003}", "é\u{3000}", "\u{200b}y", "\u{85}z\u{b}"] {
        assert_eq!(trim(s), s.trim(), "{s:?}");
        assert_eq!(is_blank(s), s.trim().is_empty());
        assert_eq!(split_words(s), s.split_whitespace().map(String::from).collect::<Vec<_>>());
    }
    assert_eq!(strip_end("a//", '/'), "a");
    assert_eq!(strip_end("///", '/'), "");
    assert_eq!(strip_start("[[a", '['), "a");
}

#[test]
fn splitting_and_joining() {
    assert_eq!(split_first("h/a/b", '/'), Some(("h", "a/b")));
    assert_eq!(split_first("/", '/'), Some(("", "")));
    assert_eq!(split_first("h", '/'), None);
    assert_eq!(split_last("h:a:80", ':'), Some(("h:a", "80")));
    assert_eq!(split_last("h", ':'), None);
    assert_eq!(strip_prefix("http://h", "http://"), Some("h"));
    assert_eq!(strip_prefix("h", "http://"), None);
    assert_eq!(replace("a-b-", '-', ' '), "a b ");
    assert_eq!(join(&own(&["a", "b"]), ", "), "a, b");
    assert_eq!(join(&vec![], ", "), "");
    assert!(holds("a/b", '/') && !holds("ab", '/'));
    for s in ["", "a", "a\n", "a\r\nb\n\nc\r", "\n", "\r\n\r\n", "a\r\r\n"] {
        assert_eq!(lines(s), s.lines().map(String::from).collect::<Vec<_>>(), "{s:?}");
    }
}

#[test]
fn cases_and_order() {
    for c in ['A', 'Z', 'a', '@', '[', 'É', '0'] {
        assert_eq!(to_lower(c), c.to_ascii_lowercase());
    }
    assert!(eq_ignore_case("RuE", "rUe") && !eq_ignore_case("é", "É"));
    for a in ["", "a", "ab", "b", "é", "Z"] {
        for b in ["", "a", "ab", "b", "é", "Z"] {
            assert_eq!(is_before(a, b), a < b, "{a} {b}");
        }
    }
}

#[test]
fn numbers_in_text() {
    for n in [0, 7, 10, 99, 100, 12345, u64::MAX] {
        assert_eq!(decimal_text(n), n.to_string());
        assert_eq!(parse_unsigned(&decimal_text(n), u64::MAX), Some(n));
    }
    for n in [0, -1, i64::MIN, i64::MAX, 42] {
        assert_eq!(signed_text(n), n.to_string());
    }
    for s in ["", "+", "+5", "-5", "5 ", "05", "256", "18446744073709551616", "٣", "++5"] {
        assert_eq!(parse_unsigned(s, 255), s.parse::<u8>().ok().map(u64::from), "{s}");
        assert_eq!(parse_unsigned(s, u64::MAX), s.parse::<u64>().ok(), "{s}");
    }
}

#[test]
fn readings_are_ordered_as_numbers_are() {
    let all = [0.0, -0.0, 1.0, -1.0, 0.1, 1e-310, f64::MAX, f64::INFINITY, f64::NEG_INFINITY, f64::NAN, -f64::NAN];
    for a in all {
        for b in all {
            let (x, y) = (Reading { bits: a.to_bits() }, Reading { bits: b.to_bits() });
            assert_eq!(x.exceeds(y), a > b, "{a} {b}");
            assert_eq!(x.reaches(y), a >= b, "{a} {b}");
        }
    }
    assert!(Fraction { bits: 0.5f32.to_bits() }.in_unit());
    assert!(!Fraction { bits: (-0.5f32).to_bits() }.in_unit());
}

#[test]
fn spans_saturate() {
    assert_eq!(after(5, 6), 11);
    assert_eq!(after(u64::MAX, 1), u64::MAX);
    assert_eq!(elapsed(5, 6), 1);
    assert_eq!(elapsed(6, 5), 0);
    assert_eq!(seconds(2), 2_000_000_000);
    assert_eq!(seconds(u64::MAX), u64::MAX);
    assert_eq!(milliseconds(1500), 1_500_000_000);
    assert_eq!(clamp(3, 5, 9), 5);
    assert_eq!(clamp(30, 5, 9), 9);
}
