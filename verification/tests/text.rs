//! Text and numbers.

use echod::text::{
    chars_of, decimal_text, fd_text, has_prefix, lists, parse_i32, parse_u32, parse_u64,
    push_hex_padded, push_padded_right, push_zero_padded, same_text, split_text,
};
use echod::admin::answer_text;
use echod::text_map::TextMap;

#[test]
fn numbers_are_written_in_full() {
    assert_eq!(decimal_text(0), "0");
    assert_eq!(decimal_text(u64::MAX), "18446744073709551615");
    assert_eq!(fd_text(i32::MIN), "-2147483648");
    assert_eq!(fd_text(-1), "-1");
    let mut s = String::new();
    push_zero_padded(&mut s, 7, 3);
    push_zero_padded(&mut s, 1234, 3);
    push_hex_padded(&mut s, 0xab, 4);
    push_padded_right(&mut s, "é", 3);
    push_padded_right(&mut s, "long", 2);
    assert_eq!(s, "00723400abé  long");
}

#[test]
fn numbers_are_read_back() {
    assert_eq!(parse_u64("18446744073709551615"), Some(u64::MAX));
    assert_eq!(parse_u64("18446744073709551616"), None);
    assert_eq!(parse_u64("+0012"), Some(12));
    assert_eq!(parse_u64("-0"), None);
    assert_eq!(parse_u64("1_0"), None);
    assert_eq!(parse_u32("4294967296"), None);
    assert_eq!(parse_i32("-0"), Some(0));
    assert_eq!(parse_i32("--1"), None);
    assert_eq!(parse_i32("+"), None);
}

#[test]
fn text_is_compared_and_split() {
    assert!(same_text("a", "a") && !same_text("a", "A"));
    assert!(has_prefix("FDPASS_X", "FDPASS_") && !has_prefix("FD", "FDPASS_"));
    assert!(lists(&vec!["a".into(), "b".into()], "b") && !lists(&vec![], "b"));
    assert_eq!(split_text("a::b", ':'), vec!["a", "", "b"]);
    assert_eq!(split_text("", ':'), vec![""]);
    assert_eq!(chars_of("aé"), vec!['a', 'é']);
}

#[test]
fn map_keeps_one_value_for_a_name() {
    let mut m: TextMap<u8> = TextMap::new();
    m.insert("a".into(), 1);
    m.insert("b".into(), 2);
    m.insert("a".into(), 3);
    assert_eq!(m.len(), 2);
    assert_eq!(m.get("a"), Some(&3));
    m.remove("a");
    m.remove("a");
    assert!(!m.contains_key("a"));
    assert_eq!(m.into_entries(), vec![("b".to_string(), 2)]);
}

#[test]
fn every_kind_of_white_space_is_trimmed() {
    let white: Vec<u32> = [0x9, 0xa, 0xb, 0xc, 0xd, 0x20, 0x85, 0xa0, 0x1680, 0x2028, 0x2029, 0x202f]
        .into_iter()
        .chain(0x2000..=0x200a)
        .chain([0x205f, 0x3000])
        .collect();
    for c in '\u{0}'..=char::MAX {
        let kept = answer_text(&format!("{c}x y{c}"));
        assert_eq!(kept == "x y", white.contains(&u32::from(c)), "{c:?}");
    }
}
