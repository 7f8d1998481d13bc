use migrator::models::{
    i64_to_decimal, parse_i32, parse_i64, parse_optional_bool, parse_optional_i32,
    parse_optional_i64, parse_optional_string,
};

#[test]
fn test_parse_i64_plain() {
    assert_eq!(parse_i64("42"), Some(42));
    assert_eq!(parse_i64("0"), Some(0));
    assert_eq!(parse_i64("-17"), Some(-17));
    assert_eq!(parse_i64("+17"), Some(17));
    assert_eq!(parse_i64("007"), Some(7));
}

#[test]
fn test_parse_i64_rejects_malformed() {
    assert_eq!(parse_i64(""), None);
    assert_eq!(parse_i64("-"), None);
    assert_eq!(parse_i64("+"), None);
    assert_eq!(parse_i64("12a"), None);
    assert_eq!(parse_i64("a12"), None);
    assert_eq!(parse_i64("1 2"), None);
    assert_eq!(parse_i64(" 12"), None);
    assert_eq!(parse_i64("--5"), None);
    assert_eq!(parse_i64("1.5"), None);
}

#[test]
fn test_parse_i64_limits() {
    assert_eq!(parse_i64("9223372036854775807"), Some(i64::MAX));
    assert_eq!(parse_i64("-9223372036854775808"), Some(i64::MIN));
    assert_eq!(parse_i64("9223372036854775808"), None);
    assert_eq!(parse_i64("-9223372036854775809"), None);
    assert_eq!(parse_i64("99999999999999999999999"), None);
}

#[test]
fn test_parse_i32_limits() {
    assert_eq!(parse_i32("2147483647"), Some(i32::MAX));
    assert_eq!(parse_i32("-2147483648"), Some(i32::MIN));
    assert_eq!(parse_i32("2147483648"), None);
    assert_eq!(parse_i32("-2147483649"), None);
    assert_eq!(parse_i32("15"), Some(15));
}

#[test]
fn test_i64_to_decimal() {
    assert_eq!(i64_to_decimal(0), "0");
    assert_eq!(i64_to_decimal(7), "7");
    assert_eq!(i64_to_decimal(1234), "1234");
    assert_eq!(i64_to_decimal(-123), "-123");
    assert_eq!(i64_to_decimal(i64::MAX), "9223372036854775807");
    assert_eq!(i64_to_decimal(i64::MIN), "-9223372036854775808");
}

#[test]
fn test_parse_optional_string_trims() {
    assert_eq!(parse_optional_string(&None), None);
    assert_eq!(parse_optional_string(&Some("".to_string())), None);
    assert_eq!(parse_optional_string(&Some("   ".to_string())), None);
    assert_eq!(
        parse_optional_string(&Some("  hello  ".to_string())),
        Some("hello".to_string())
    );
    assert_eq!(
        parse_optional_string(&Some("x".to_string())),
        Some("x".to_string())
    );
}

#[test]
fn test_parse_optional_i64() {
    assert_eq!(parse_optional_i64(&None), None);
    assert_eq!(parse_optional_i64(&Some(" 42 ".to_string())), Some(42));
    assert_eq!(parse_optional_i64(&Some("-1".to_string())), Some(-1));
    assert_eq!(parse_optional_i64(&Some("nope".to_string())), None);
    assert_eq!(parse_optional_i64(&Some("".to_string())), None);
}

#[test]
fn test_parse_optional_i32() {
    assert_eq!(parse_optional_i32(&Some(" 7 ".to_string())), Some(7));
    assert_eq!(parse_optional_i32(&Some("2147483648".to_string())), None);
    assert_eq!(parse_optional_i32(&None), None);
}

#[test]
fn test_parse_optional_bool() {
    assert_eq!(parse_optional_bool(&Some("t".to_string())), Some(true));
    assert_eq!(parse_optional_bool(&Some("TRUE".to_string())), Some(true));
    assert_eq!(parse_optional_bool(&Some(" True ".to_string())), Some(true));
    assert_eq!(parse_optional_bool(&Some("f".to_string())), Some(false));
    assert_eq!(parse_optional_bool(&Some("False".to_string())), Some(false));
    assert_eq!(parse_optional_bool(&Some("yes".to_string())), None);
    assert_eq!(parse_optional_bool(&Some("".to_string())), None);
    assert_eq!(parse_optional_bool(&None), None);
}
