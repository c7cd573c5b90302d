use config_validator::text::chars::{alphanumeric, digit, letter, to_chars};
use config_validator::text::decimal::{parse_unsigned, push_decimal};
use config_validator::text::split::split_bounds;

fn chars(text: &str) -> Vec<char> {
    text.chars().collect()
}

fn parts(text: &str, sep: char) -> Vec<String> {
    let all = chars(text);
    split_bounds(&all, sep).into_iter().map(|(from, to)| all[from..to].iter().collect()).collect()
}

fn decimal(n: u64) -> String {
    let mut out = String::new();
    push_decimal(&mut out, n);
    out
}

#[test]
fn character_classes_are_ascii_only() {
    for c in ['a', 'z', 'A', 'Z', 'm', 'Q'] {
        assert!(letter(c) && !digit(c) && alphanumeric(c));
    }
    for c in ['0', '9', '5'] {
        assert!(!letter(c) && digit(c) && alphanumeric(c));
    }
    for c in ['-', '_', ' ', '.', '/', '@', '[', '`', '{', ':', 'é', 'ß', '٣', '\0'] {
        assert!(!letter(c) && !digit(c) && !alphanumeric(c));
    }
}

#[test]
fn a_string_is_its_characters() {
    assert_eq!(to_chars(""), Vec::<char>::new());
    assert_eq!(to_chars("abc"), vec!['a', 'b', 'c']);
    assert_eq!(to_chars("né1"), vec!['n', 'é', '1']);
}

#[test]
fn unsigned_text_is_read_in_base_ten() {
    assert_eq!(parse_unsigned(&chars("0"), 255), Some(0));
    assert_eq!(parse_unsigned(&chars("7"), 255), Some(7));
    assert_eq!(parse_unsigned(&chars("255"), 255), Some(255));
    assert_eq!(parse_unsigned(&chars("0255"), 255), Some(255));
    assert_eq!(parse_unsigned(&chars("+12"), 255), Some(12));
    assert_eq!(parse_unsigned(&chars("18446744073709551615"), u64::MAX), Some(u64::MAX));
    assert_eq!(parse_unsigned(&chars("1234567890"), u64::MAX), Some(1234567890));
}

#[test]
fn numbers_above_the_bound_are_not_read() {
    assert_eq!(parse_unsigned(&chars("256"), 255), None);
    assert_eq!(parse_unsigned(&chars("1"), 0), None);
    assert_eq!(parse_unsigned(&chars("0"), 0), Some(0));
    assert_eq!(parse_unsigned(&chars("18446744073709551616"), u64::MAX), None);
    assert_eq!(parse_unsigned(&chars("99999999999999999999999999"), u64::MAX), None);
}

#[test]
fn other_text_is_not_read() {
    for text in ["", "+", "-", "-1", "++1", "+-1", "1+", "1 ", " 1", "1_0", "0x1", "1.0", "١"] {
        assert_eq!(parse_unsigned(&chars(text), u64::MAX), None, "{:?}", text);
    }
}

#[test]
fn numbers_are_written_without_leading_zeros() {
    assert_eq!(decimal(0), "0");
    assert_eq!(decimal(9), "9");
    assert_eq!(decimal(10), "10");
    assert_eq!(decimal(1023), "1023");
    assert_eq!(decimal(1000000), "1000000");
    assert_eq!(decimal(u64::MAX), "18446744073709551615");
}

#[test]
fn writing_a_number_appends_to_what_is_there() {
    let mut out = String::from("n=");
    push_decimal(&mut out, 42);
    push_decimal(&mut out, 7);
    assert_eq!(out, "n=427");
}

#[test]
fn written_numbers_are_read_back() {
    for n in [0, 1, 9, 10, 99, 100, 255, 256, 65535, 4294967296, u64::MAX] {
        assert_eq!(parse_unsigned(&chars(&decimal(n)), u64::MAX), Some(n));
    }
}

#[test]
fn splitting_gives_the_parts_between_separators() {
    assert_eq!(parts("a.b.c", '.'), vec!["a", "b", "c"]);
    assert_eq!(parts("192.168.1.1", '.'), vec!["192", "168", "1", "1"]);
    assert_eq!(parts("abc", '.'), vec!["abc"]);
    assert_eq!(parts("", '.'), vec![""]);
    assert_eq!(parts(".", '.'), vec!["", ""]);
    assert_eq!(parts("a.", '.'), vec!["a", ""]);
    assert_eq!(parts(".a", '.'), vec!["", "a"]);
    assert_eq!(parts("a..b", '.'), vec!["a", "", "b"]);
    assert_eq!(parts("a,b.c", ','), vec!["a", "b.c"]);
}

#[test]
fn splitting_agrees_with_the_standard_library() {
    for text in ["", ".", "..", "1.2.3.4", "a.b.", ".x", "no dots", "é.ü.ß"] {
        let expected: Vec<String> = text.split('.').map(|part| part.to_string()).collect();
        assert_eq!(parts(text, '.'), expected);
    }
}

#[test]
fn bounds_are_positions_in_characters() {
    assert_eq!(split_bounds(&chars("ab.c"), '.'), vec![(0, 2), (3, 4)]);
    assert_eq!(split_bounds(&chars("é.ü"), '.'), vec![(0, 1), (2, 3)]);
    assert_eq!(split_bounds(&chars(""), '.'), vec![(0, 0)]);
}
