use manga_sources::text::{
    chars_of, contains_str, first_word_exec, i32_to_string, parse_i64_exec, replace_char_exec,
    split_char_exec, str_eq, trim_exec, urlencode,
};

#[test]
fn i32_to_string_renders_decimal() {
    assert_eq!(i32_to_string(0), "0");
    assert_eq!(i32_to_string(7), "7");
    assert_eq!(i32_to_string(123), "123");
    assert_eq!(i32_to_string(-45), "-45");
    assert_eq!(i32_to_string(1000), "1000");
    assert_eq!(i32_to_string(i32::MAX), "2147483647");
    assert_eq!(i32_to_string(-2147483647), "-2147483647");
}

#[test]
fn urlencode_keeps_unreserved_and_encodes_the_rest() {
    assert_eq!(urlencode(""), "");
    assert_eq!(urlencode("AZaz09-_.~"), "AZaz09-_.~");
    assert_eq!(urlencode("One Piece"), "One+Piece");
    assert_eq!(urlencode("a&b=c"), "a%26b%3Dc");
    assert_eq!(urlencode("é"), "%C3%A9");
    assert_eq!(urlencode("50%/x?y#z"), "50%25%2Fx%3Fy%23z");
}

#[test]
fn urlencode_concatenation_law_on_values() {
    let whole = urlencode("ab cd&ef");
    let parts = format!("{}{}", urlencode("ab c"), urlencode("d&ef"));
    assert_eq!(whole, parts);
}

#[test]
fn urlencode_query_safety_law_on_values() {
    let encoded = urlencode("a/b?c#d&e=f g\u{1F600}");
    for c in encoded.chars() {
        assert!(c.is_ascii_alphanumeric() || "-_.~%+".contains(c), "unexpected {:?}", c);
    }
}

#[test]
fn parse_i64_follows_integer_syntax() {
    assert_eq!(parse_i64_exec("42"), Some(42));
    assert_eq!(parse_i64_exec("-7"), Some(-7));
    assert_eq!(parse_i64_exec("+5"), Some(5));
    assert_eq!(parse_i64_exec("007"), Some(7));
    assert_eq!(parse_i64_exec(""), None);
    assert_eq!(parse_i64_exec("-"), None);
    assert_eq!(parse_i64_exec("+"), None);
    assert_eq!(parse_i64_exec("1a"), None);
    assert_eq!(parse_i64_exec(" 1"), None);
    assert_eq!(parse_i64_exec("9223372036854775807"), Some(i64::MAX));
    assert_eq!(parse_i64_exec("9223372036854775808"), None);
    assert_eq!(parse_i64_exec("-9223372036854775808"), Some(i64::MIN));
    assert_eq!(parse_i64_exec("-9223372036854775809"), None);
    assert_eq!(parse_i64_exec("99999999999999999999999"), None);
}

#[test]
fn parse_i64_agrees_with_std() {
    for s in ["0", "12", "-12", "+3", "", "x", "1.5", "18446744073709551616", "-0"] {
        assert_eq!(parse_i64_exec(s), s.parse::<i64>().ok(), "on {:?}", s);
    }
}

#[test]
fn decimal_round_trip_law_on_values() {
    for n in [0, 1, -1, 9, 10, -10, 99, 12345, -2147483647, i32::MAX] {
        assert_eq!(parse_i64_exec(&i32_to_string(n)), Some(n as i64));
    }
}

#[test]
fn trim_and_words() {
    assert_eq!(trim_exec("  a b \t"), "a b");
    assert_eq!(trim_exec("\u{3000}x\u{a0}"), "x");
    assert_eq!(trim_exec("   "), "");
    assert_eq!(first_word_exec("  3 days ago"), Some(String::from("3")));
    assert_eq!(first_word_exec("week"), Some(String::from("week")));
    assert_eq!(first_word_exec(" \n "), None);
}

#[test]
fn split_and_search() {
    assert_eq!(split_char_exec("a,b,,c", ','), vec!["a", "b", "", "c"]);
    assert_eq!(split_char_exec("", ','), vec![""]);
    assert_eq!(split_char_exec("x,", ','), vec!["x", ""]);
    assert!(contains_str("2 hours ago", "hour"));
    assert!(!contains_str("2 days ago", "hour"));
    assert!(contains_str("abc", ""));
    assert!(str_eq("Status", "Status"));
    assert!(!str_eq("Status", "status"));
    assert_eq!(chars_of("héllo"), vec!['h', 'é', 'l', 'l', 'o']);
    assert_eq!(
        replace_char_exec("2024-01-01T00:00:00+00:00", '+', 'Z'),
        "2024-01-01T00:00:00Z00:00"
    );
}
