use monkeycc::text::{bool_to_string, int_to_string, parse_numeral, str_equal};

#[test]
fn test_int_to_string() {
    assert_eq!(int_to_string(0), "0");
    assert_eq!(int_to_string(7), "7");
    assert_eq!(int_to_string(10), "10");
    assert_eq!(int_to_string(-1), "-1");
    assert_eq!(int_to_string(838383), "838383");
    assert_eq!(int_to_string(i64::MAX), "9223372036854775807");
    assert_eq!(int_to_string(i64::MIN), "-9223372036854775808");
    for v in [-1000i64, -99, -10, -9, 9, 99, 100, 101, 123456789] {
        assert_eq!(int_to_string(v), v.to_string());
    }
}

#[test]
fn test_bool_to_string() {
    assert_eq!(bool_to_string(true), "true");
    assert_eq!(bool_to_string(false), "false");
}

#[test]
fn test_parse_numeral() {
    assert_eq!(parse_numeral("0"), Some(0));
    assert_eq!(parse_numeral("5"), Some(5));
    assert_eq!(parse_numeral("007"), Some(7));
    assert_eq!(parse_numeral("838383"), Some(838383));
    assert_eq!(parse_numeral("9223372036854775807"), Some(i64::MAX));
    assert_eq!(parse_numeral("9223372036854775808"), None);
    assert_eq!(parse_numeral("99999999999999999999999"), None);
    assert_eq!(parse_numeral(""), None);
    assert_eq!(parse_numeral("12a"), None);
    assert_eq!(parse_numeral("a12"), None);
    assert_eq!(parse_numeral("-5"), None);
    assert_eq!(parse_numeral("+5"), None);
    assert_eq!(parse_numeral("1 2"), None);
    assert_eq!(parse_numeral("１２"), None);
}

#[test]
fn test_str_equal() {
    assert!(str_equal("", ""));
    assert!(str_equal("let", "let"));
    assert!(!str_equal("let", "le"));
    assert!(!str_equal("let", "lex"));
    assert!(!str_equal("", "x"));
    assert!(str_equal("héllo", "héllo"));
    assert!(!str_equal("héllo", "hèllo"));
}
