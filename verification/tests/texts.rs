use std::collections::hash_map::DefaultHasher;
use std::hash::{Hash, Hasher};

use cc_blackbox_core::chars::{white_space, CharClass};
use cc_blackbox_core::hash::{hash_bytes_hex, hash_text_hex, label_digest};
use cc_blackbox_core::json::{collect_text_from_value, JsonField, JsonValue};
use cc_blackbox_core::keywords::keyword_set;
use cc_blackbox_core::numeral::{parse_number, push_decimal, push_hexadecimal};
use cc_blackbox_core::text::{
    collapse_white_space, find_first, find_last, head, lower_text, split_lines, split_runs, trim,
};

const SAMPLES: [&str; 9] = [
    "",
    " ",
    "one",
    "  one two\t",
    "one\ntwo\r\nthree\n",
    "\n\n",
    "\u{a0}\u{2003}spaced\u{3000}",
    "\u{c4}pfel und \u{df}",
    "a\rb\r",
];

#[test]
fn white_space_is_that_of_unicode() {
    for code in 0..=0x10ffffu32 {
        if let Some(ch) = char::from_u32(code) {
            assert_eq!(white_space(ch), ch.is_whitespace(), "{code:x}");
        }
    }
}

#[test]
fn texts_are_trimmed_and_split_as_by_std() {
    for sample in SAMPLES {
        assert_eq!(trim(sample), sample.trim());
        assert_eq!(split_lines(sample), sample.lines().collect::<Vec<&str>>());
        assert_eq!(
            split_runs(sample, CharClass::NonSpace),
            sample.split_whitespace().collect::<Vec<&str>>()
        );
        assert_eq!(
            collapse_white_space(sample),
            sample.split_whitespace().collect::<Vec<&str>>().join(" ")
        );
        assert_eq!(lower_text(sample), sample.to_ascii_lowercase());
        assert_eq!(trim(trim(sample)), trim(sample));
    }
}

#[test]
fn places_are_found_from_either_end() {
    let chars: Vec<char> = "abcabc".chars().collect();
    assert_eq!(find_first(&chars, "bc"), Some(1));
    assert_eq!(find_last(&chars, "bc"), Some(4));
    assert_eq!(find_first(&chars, "x"), None);
    assert_eq!(find_last(&chars, "abcabcabc"), None);
    assert_eq!(find_first(&chars, ""), Some(0));
    assert_eq!(find_last(&chars, ""), Some(6));
}

#[test]
fn heads_are_counted_in_characters() {
    assert_eq!(head("\u{e4}\u{f6}\u{fc}", 2), "\u{e4}\u{f6}");
    assert_eq!(head("ab", 5), "ab");
    assert_eq!(head("ab", 0), "");
}

#[test]
fn numbers_are_read_as_by_std() {
    let settings = [
        "", "0", "7", "+7", "-7", "007", " 7", "7 ", "1_000", "x", "+", "18446744073709551615",
        "18446744073709551616", "99999999999999999999999",
    ];
    for setting in settings {
        assert_eq!(parse_number(setting, u64::MAX), setting.parse::<u64>().ok(), "{setting}");
    }
    assert_eq!(parse_number("256", 255), None);
    assert_eq!(parse_number("255", 255), Some(255));
}

#[test]
fn numbers_are_written_in_decimal_and_hexadecimal() {
    let mut text = String::new();
    push_decimal(&mut text, 0);
    text.push(' ');
    push_decimal(&mut text, 1_203);
    text.push(' ');
    push_decimal(&mut text, u64::MAX);
    text.push(' ');
    push_hexadecimal(&mut text, 0xbeef, 16);
    assert_eq!(text, "0 1203 18446744073709551615 000000000000beef");
}

#[test]
fn labels_hold_the_digest_of_the_default_hasher() {
    for sample in SAMPLES {
        let mut hasher = DefaultHasher::new();
        sample.as_bytes().hash(&mut hasher);
        let expected = format!("hash_{:016x}", hasher.finish());
        assert_eq!(hash_text_hex(sample), expected);
        assert_eq!(hash_bytes_hex(sample.as_bytes()), expected);
        assert_eq!(hash_text_hex(sample), hash_text_hex(&sample.to_string()));
        assert_eq!(expected.len(), 21);
        assert!(expected[5..].chars().all(|ch| matches!(ch, '0'..='9' | 'a'..='f')));
    }
    assert_ne!(hash_text_hex("one"), hash_text_hex("two"));
    assert_eq!(label_digest(0x1f), "hash_000000000000001f");
}

#[test]
fn texts_of_json_are_collected_up_to_the_limit() {
    let item = |text: &str| {
        JsonValue::Object(vec![
            JsonField { name: "type".to_string(), value: JsonValue::Text("text".to_string()) },
            JsonField { name: "text".to_string(), value: JsonValue::Text(text.to_string()) },
        ])
    };
    let value = JsonValue::Array(vec![
        item("first"),
        JsonValue::Scalar,
        JsonValue::Text("second".to_string()),
        JsonValue::Array(vec![item("third")]),
        JsonValue::Object(Vec::new()),
    ]);
    let mut all = String::new();
    collect_text_from_value(&value, &mut all, 100);
    assert_eq!(all, "first\nsecond\nthird");
    for max in 0..=20 {
        let mut some = String::new();
        collect_text_from_value(&value, &mut some, max);
        assert!(some.chars().count() <= max);
        assert!(all.starts_with(&some));
    }
}

#[test]
fn keywords_leave_out_short_common_and_numeric_words() {
    let set = keyword_set(
        "Helper",
        "Fix the --auth-flow-- with HELPER: please retry 12345 times, v2_beta, auth-flow",
    );
    assert_eq!(set.len(), 4);
    assert!(set.has("auth-flow"));
    assert!(set.has("retry"));
    assert!(set.has("times"));
    assert!(set.has("v2_beta"));
    assert!(!set.has("helper"));
    assert!(!set.has("please"));
    assert!(!set.has("12345"));
    assert!(keyword_set("Other", "helper").has("helper"));
}

#[test]
fn keywords_stop_at_the_limit() {
    let mut text = String::new();
    for i in 0..120 {
        text.push_str(&format!("word{i} "));
    }
    let set = keyword_set("Helper", &text);
    assert_eq!(set.len(), 96);
    assert!(set.has("word95"));
    assert!(!set.has("word96"));
}
