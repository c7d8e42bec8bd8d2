//! Texts, numbers and JSON members.

use skillranker::json::{line_of, members};
use skillranker::text::{
    chars_of, contains, count_text, eq, hyphenate, join, number, pad_left, pad_right,
    parse_number, parse_signed, precedes, signed_number, split_words, starts_with, strip_prefix,
    text_of, trim, trim_start,
};

#[test]
fn numbers_are_written_and_read() {
    for n in [0, 7, 10, 65_535, u64::MAX] {
        assert_eq!(number(n), n.to_string());
        assert_eq!(parse_number(&n.to_string(), u64::MAX), Some(n));
    }
    assert_eq!(count_text(12), "12");
    for n in [0, -1, 42, i64::MIN, i64::MAX] {
        assert_eq!(signed_number(n), n.to_string());
        assert_eq!(parse_signed(&n.to_string()), Some(n));
    }
    for bad in ["", "+", "-", "1 ", " 1", "1_0", "0x1", "--1", "18446744073709551616"] {
        assert_eq!(parse_number(bad, u64::MAX), bad.parse::<u64>().ok(), "{bad}");
        assert_eq!(parse_signed(bad), bad.parse::<i64>().ok(), "{bad}");
    }
    assert_eq!(parse_number("+5", 9), Some(5));
    assert_eq!(parse_number("10", 9), None);
    assert_eq!(parse_signed("-9223372036854775809"), None);
}

#[test]
fn blanks_are_those_of_unicode_or_of_ascii() {
    assert_eq!(trim(false, "\u{3000} a b \u{a0}"), "a b");
    assert_eq!(trim(true, "\u{a0} a\t"), "\u{a0} a");
    assert_eq!(trim_start(false, "\n {"), "{");
    assert_eq!(split_words(" a\u{2003}b\n"), ["a", "b"]);
    assert!(split_words(" \t").is_empty());
}

#[test]
fn texts_are_cut_joined_and_padded() {
    assert!(eq("é", "é") && !eq("a", "b"));
    assert!(starts_with("héllo", "hé") && !starts_with("h", "hé"));
    assert_eq!(strip_prefix("--dir=x", "--dir="), Some("x".to_owned()));
    assert_eq!(strip_prefix("x", "y"), None);
    let chars = chars_of("héllo");
    assert_eq!(text_of(&chars, 1, 3), "él");
    let list = vec!["a".to_owned(), "b".to_owned()];
    assert_eq!(join(&list, ", "), "a, b");
    assert_eq!(join(&Vec::new(), ", "), "");
    assert!(contains(&list, "b") && !contains(&list, "c"));
    assert_eq!(pad_right("é", 3), format!("{:<3}", "é"));
    assert_eq!(pad_left("12", 4), format!("{:>4}", "12"));
    assert_eq!(pad_left("12345", 4), "12345");
    assert_eq!(hyphenate("Not Useful"), hyphenate("not useful"));
}

#[test]
fn texts_are_ordered_by_their_characters() {
    let mut list = vec!["b", "", "ab", "a", "é", "\u{10000}", "\u{ffff}"];
    list.sort();
    for i in 0..list.len() {
        for j in 0..list.len() {
            assert_eq!(precedes(list[i], list[j]), i < j);
        }
    }
}

#[test]
fn members_are_listed_by_name() {
    let value: serde_json::Value =
        serde_json::from_str(r#"{"b":1,"𐀀":2,"a":[],"￿":3}"#).unwrap();
    let names: Vec<String> = members(&value).unwrap().into_iter().map(|m| m.0).collect();
    assert_eq!(names, ["a", "b", "\u{ffff}", "\u{10000}"]);
    assert!(members(&value["a"]).is_none());
    assert_eq!(line_of(&value["a"]), "[]\n");
}

#[test]
fn blanks_are_the_white_space_characters() {
    let blank = |c: char| trim(false, &c.to_string()).is_empty();
    let found: Vec<u32> = (0..=0x10_ffff)
        .filter_map(char::from_u32)
        .filter(|c| blank(*c))
        .map(u32::from)
        .collect();
    let mut listed: Vec<u32> = (0x9..=0xd).collect();
    listed.extend([0x20, 0x85, 0xa0, 0x1680]);
    listed.extend(0x2000..=0x200a);
    listed.extend([0x2028, 0x2029, 0x202f, 0x205f, 0x3000]);
    assert_eq!(found, listed);
}
