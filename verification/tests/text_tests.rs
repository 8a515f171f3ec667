use lambda_claps::post_claps::error_text;
use lambda_claps::text::{int_to_text, json_string_array_text, parse_i32};

#[test]
fn decimal_text_of_integers() {
    assert_eq!(int_to_text(0), "0");
    assert_eq!(int_to_text(7), "7");
    assert_eq!(int_to_text(60), "60");
    assert_eq!(int_to_text(-42), "-42");
    assert_eq!(int_to_text(i64::MAX), "9223372036854775807");
    assert_eq!(int_to_text(i64::MIN), "-9223372036854775808");
}

#[test]
fn parse_accepts_what_std_accepts() {
    assert_eq!(parse_i32("123"), Some(123));
    assert_eq!(parse_i32("+7"), Some(7));
    assert_eq!(parse_i32("-15"), Some(-15));
    assert_eq!(parse_i32("007"), Some(7));
    assert_eq!(parse_i32("2147483647"), Some(i32::MAX));
    assert_eq!(parse_i32("-2147483648"), Some(i32::MIN));
}

#[test]
fn parse_rejects_what_std_rejects() {
    for text in ["", "-", "+", "12a", " 1", "1 ", "--1", "+-1", "2147483648", "-2147483649",
        "99999999999999999999999", "١٢"]
    {
        assert_eq!(parse_i32(text), None, "{:?}", text);
        assert!(text.parse::<i32>().is_err());
    }
}

#[test]
fn parse_agrees_with_std_on_samples() {
    for text in ["0", "-0", "+0", "42", "-2147483648", "2147483647", "1e3", "0x10", "300000000000"] {
        assert_eq!(parse_i32(text), text.parse::<i32>().ok(), "{:?}", text);
    }
}

#[test]
fn written_numbers_parse_back() {
    for n in [0i32, 1, -1, 9, 10, 59, 60, 123456, i32::MAX, i32::MIN] {
        assert_eq!(parse_i32(&int_to_text(n as i64)), Some(n));
    }
}

#[test]
fn json_quoting_escapes() {
    assert_eq!(error_text("hello"), "{\"Error\":\"hello\"}");
    assert_eq!(error_text("a\"b\nc"), "{\"Error\":\"a\\\"b\\nc\"}");
    assert_eq!(error_text(""), "{\"Error\":\"\"}");
}

#[test]
fn json_arrays_of_strings() {
    assert_eq!(json_string_array_text(&vec![]), "[]");
    assert_eq!(json_string_array_text(&vec!["claps".to_string()]), "[\"claps\"]");
    assert_eq!(
        json_string_array_text(&vec!["a".to_string(), "b\"".to_string()]),
        "[\"a\",\"b\\\"\"]"
    );
    let names = vec!["claps".to_string(), "posts".to_string()];
    assert_eq!(json_string_array_text(&names), serde_json::to_string(&names).unwrap());
}
