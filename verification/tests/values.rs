//! Texts, JSON values, doubles and times.

use gateway_core::double::{is_above, near_i64, near_u64};
use gateway_core::json::{from_value, is_finite, parse, text_of, to_value, trunc_bits, Json};
use gateway_core::text::{
    chars_of, decimal_i64, decimal_u64, ends_with, eq_fold, find_char, join2, join3, join_all,
    parse_int, same, skip_chars, stands_before, starts_with, take_chars, trim, trim_end_char,
};
use gateway_core::time::{
    date_text, format_reset_text, reset_hint, reset_text_at, retry_after_reset_text,
};

fn bits(x: f64) -> u64 {
    x.to_bits()
}

#[test]
fn texts_are_cut_and_joined() {
    assert_eq!(chars_of("a好b"), vec!['a', '好', 'b']);
    assert_eq!(skip_chars("a好b", 1), "好b");
    assert_eq!(take_chars("a好b", 2), "a好");
    assert_eq!(join2("ab", "cd"), "abcd");
    assert_eq!(join3("a", "好", "c"), "a好c");
    assert_eq!(join_all(&vec![], ", "), "");
    assert_eq!(join_all(&vec!["a".to_string()], ", "), "a");
    assert_eq!(
        join_all(&vec!["a".to_string(), "b".to_string(), "c".to_string()], ", "),
        "a, b, c"
    );
    assert!(same("x", "x"));
    assert!(!same("x", "X"));
}

#[test]
fn white_space_is_trimmed_at_both_ends() {
    assert_eq!(trim("  a b \t\n"), "a b");
    assert_eq!(trim("\u{3000}好\u{a0}"), "好");
    assert_eq!(trim(" \n "), "");
    assert_eq!(trim(""), "");
    assert_eq!(trim(&trim("  x ")), "x");
    assert_eq!(trim_end_char("http://h///", '/'), "http://h");
    assert_eq!(trim_end_char("/", '/'), "");
}

#[test]
fn ascii_case_does_not_count() {
    assert!(eq_fold("DeepSeek-V4", "deepseek-v4"));
    assert!(!eq_fold("Ä", "ä"));
    assert!(!eq_fold("a", "ab"));
    assert!(starts_with("cline-free/x", "cline-free/"));
    assert!(!starts_with("cl", "cline"));
    assert!(ends_with("https://h/v1", "/v1"));
    assert!(!ends_with("v1", "/v1"));
    assert_eq!(find_char(&chars_of("ab#c"), '#'), 2);
    assert_eq!(find_char(&chars_of("abc"), '#'), 3);
}

#[test]
fn texts_are_ordered_by_their_characters() {
    assert!(stands_before("a", "b"));
    assert!(stands_before("a", "ab"));
    assert!(!stands_before("ab", "a"));
    assert!(!stands_before("a", "a"));
    assert!(stands_before("z", "好"));
}

#[test]
fn numbers_are_written_and_read_in_decimal() {
    assert_eq!(decimal_u64(0), "0");
    assert_eq!(decimal_u64(u64::MAX), "18446744073709551615");
    assert_eq!(decimal_i64(i64::MIN), "-9223372036854775808");
    assert_eq!(decimal_i64(-7), "-7");
    assert_eq!(parse_int("120"), Some(120));
    assert_eq!(parse_int("-5"), Some(-5));
    assert_eq!(parse_int("+5"), Some(5));
    assert_eq!(parse_int("9223372036854775807"), Some(i64::MAX));
    assert_eq!(parse_int("9223372036854775808"), None);
    assert_eq!(parse_int("-9223372036854775808"), Some(i64::MIN));
    assert_eq!(parse_int(""), None);
    assert_eq!(parse_int("-"), None);
    assert_eq!(parse_int("1x"), None);
}

#[test]
fn json_goes_through_serde_and_back() {
    let text = r#"{"a":[1,-2,18446744073709551615,1.5,true,null,"x\n好"],"b":{"c":{}}}"#;
    let value: serde_json::Value = serde_json::from_str(text).unwrap();
    let json = from_value(value.clone());
    assert_eq!(to_value(&json), value);
    assert_eq!(serde_json::from_str::<serde_json::Value>(&text_of(&json)).unwrap(), value);
    assert!(parse("{").is_none());
    assert!(parse("[]").is_some());
    let copy = json.copy();
    assert_eq!(to_value(&copy), value);
}

#[test]
fn the_last_member_of_a_name_counts() {
    let json = parse(r#"{"a":1,"a":2}"#).unwrap();
    assert_eq!(json.get("a").unwrap().as_i64(), Some(2));
    let mut object = Json::obj().with("a", Json::Int(1)).with("b", Json::Bool(true));
    object.put("a", Json::str("x"));
    assert_eq!(object.get("a").unwrap().as_str(), Some("x"));
    assert_eq!(object.get("b").unwrap().as_bool(), Some(true));
    assert!(object.get("c").is_none());
    assert!(object.has_members());
    assert!(!Json::obj().has_members());
}

#[test]
fn values_count_as_true_like_in_javascript() {
    let yes = ["1", "-1", "0.5", "\"0\"", "[]", "{}", "true"];
    let no = ["0", "0.0", "-0.0", "\"\"", "null", "false"];
    for text in yes {
        assert!(parse(text).unwrap().truthy(), "{}", text);
    }
    for text in no {
        assert!(!parse(text).unwrap().truthy(), "{}", text);
    }
    assert!(Json::Float(bits(f64::NAN)).is_null());
    assert!(!is_finite(bits(f64::INFINITY)));
    assert!(is_finite(bits(1.0e308)));
}

#[test]
fn doubles_are_cut_to_integers() {
    for x in [0.0, 0.9, -0.9, 1.5, -1.5, 1e15, -123456789.75, 1e19, -1e19, 9.3e18, 4.9e-324] {
        assert_eq!(trunc_bits(bits(x)), x as i64, "{}", x);
    }
}

#[test]
fn integers_have_their_nearest_doubles() {
    let some = [
        0i64,
        1,
        -1,
        3,
        1_757_000_000_000,
        (1 << 53) - 1,
        1 << 53,
        (1 << 53) + 1,
        (1 << 53) + 2,
        (1 << 53) + 3,
        -((1 << 53) + 1),
        (1 << 54) + 2,
        (1 << 54) + 6,
        i64::MAX,
        i64::MIN,
        i64::MAX - 511,
        i64::MAX - 512,
    ];
    for n in some {
        assert_eq!(near_i64(n), bits(n as f64), "{}", n);
    }
    for n in [0u64, 7, u64::MAX, u64::MAX - 1023, u64::MAX - 1024, 1 << 63, (1 << 63) + 1024] {
        assert_eq!(near_u64(n), bits(n as f64), "{}", n);
    }
    for n in [0i64, 5, -5, (1 << 53) - 1, -((1 << 53) - 1)] {
        assert_eq!(trunc_bits(near_i64(n)), n);
    }
}

#[test]
fn doubles_are_ordered_by_their_bits() {
    let some = [-1e300, -2.0, -1.0, -1e-300, -0.0, 0.0, 1e-300, 1.0, 1.5, 2.0, 1e300];
    for a in some {
        for b in some {
            assert_eq!(is_above(bits(a), bits(b)), a > b, "{} {}", a, b);
        }
    }
}

#[test]
fn times_are_told_in_two_forms() {
    // 2025-09-04 15:33:20 UTC
    assert_eq!(reset_text_at(1_757_000_000_000), "2025-09-04 23:33:20 UTC+8");
    assert_eq!(reset_text_at(i64::MAX), "");
    assert_eq!(format_reset_text(bits(1_757_000_000_000.0)), "2025/09/04 23:33:20");
    assert_eq!(format_reset_text(bits(0.0)), "");
    assert_eq!(format_reset_text(bits(-5.0)), "");
    assert_eq!(reset_hint(""), "");
    assert_eq!(reset_hint("明天"), "（明天 恢复）");
}

#[test]
fn a_retry_header_is_seconds_or_a_date() {
    assert_eq!(
        retry_after_reset_text("60", 1_757_000_000_000),
        Some("2025-09-04 23:34:20 UTC+8".to_string())
    );
    assert_eq!(
        retry_after_reset_text("Thu, 04 Sep 2025 16:00:00 GMT", 1_757_000_000_000),
        Some("2025-09-05 00:00:00 UTC+8".to_string())
    );
    assert_eq!(retry_after_reset_text("soon", 1_757_000_000_000), None);
    assert_eq!(retry_after_reset_text("", 1_757_000_000_000), None);
}

#[test]
fn a_date_without_a_text_says_nothing() {
    assert_eq!(date_text(Some("2026-01-02 03:04".to_string())), Some("2026-01-02 03:04".to_string()));
    assert_eq!(date_text(Some(String::new())), None);
    assert_eq!(date_text(None), None);
}

#[test]
fn white_space_is_that_of_unicode() {
    for c in '\0'..=char::MAX {
        assert_eq!(trim(&c.to_string()).is_empty(), c.is_whitespace(), "{:?}", c);
    }
}

#[test]
fn the_last_member_of_a_name_stays() {
    let doubled = Json::Obj(vec![
        ("a".to_string(), Json::Int(1)),
        ("b".to_string(), Json::Int(2)),
        ("a".to_string(), Json::Obj(vec![
            ("c".to_string(), Json::Null),
            ("c".to_string(), Json::Bool(true)),
        ])),
    ]);
    let plain: serde_json::Value = serde_json::from_str(r#"{"a":{"c":true},"b":2}"#).unwrap();
    assert_eq!(to_value(&doubled), plain);
    assert_eq!(text_of(&doubled), r#"{"a":{"c":true},"b":2}"#);
}
