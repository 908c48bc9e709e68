use tibco_ems_operator::text::{ascii_uppercase, clone_opt_string, parse_i64, parse_u32, str_has_prefix};

#[test]
fn uppercasing_touches_only_ascii_letters() {
    assert_eq!(ascii_uppercase("q1"), "Q1");
    assert_eq!(ascii_uppercase("aBc-1.z"), "ABC-1.Z");
    assert_eq!(ascii_uppercase(""), "");
    assert_eq!(ascii_uppercase("ALREADY"), "ALREADY");
}

#[test]
fn prefix_test_is_exact() {
    assert!(str_has_prefix(&String::from("tibcoems.apimeister.com/queue7"), "tibcoems.apimeister.com/queue"));
    assert!(str_has_prefix(&String::from("abc"), ""));
    assert!(str_has_prefix(&String::from("abc"), "abc"));
    assert!(!str_has_prefix(&String::from("ab"), "abc"));
    assert!(!str_has_prefix(&String::from("abd"), "abc"));
}

#[test]
fn signed_parsing_matches_the_standard_grammar() {
    assert_eq!(parse_i64("123"), Some(123));
    assert_eq!(parse_i64("-5"), Some(-5));
    assert_eq!(parse_i64("+7"), Some(7));
    assert_eq!(parse_i64("007"), Some(7));
    assert_eq!(parse_i64(""), None);
    assert_eq!(parse_i64("-"), None);
    assert_eq!(parse_i64("12a"), None);
    assert_eq!(parse_i64(" 12"), None);
    assert_eq!(parse_i64("9223372036854775807"), Some(i64::MAX));
    assert_eq!(parse_i64("9223372036854775808"), None);
    assert_eq!(parse_i64("-9223372036854775808"), Some(i64::MIN));
    assert_eq!(parse_i64("-9223372036854775809"), None);
}

#[test]
fn unsigned_parsing_rejects_signs_and_overflow() {
    assert_eq!(parse_u32("10"), Some(10));
    assert_eq!(parse_u32("+10"), Some(10));
    assert_eq!(parse_u32("-1"), None);
    assert_eq!(parse_u32("-0"), None);
    assert_eq!(parse_u32("4294967295"), Some(u32::MAX));
    assert_eq!(parse_u32("4294967296"), None);
    assert_eq!(parse_u32("x"), None);
}

#[test]
fn optional_strings_clone_exactly() {
    assert_eq!(clone_opt_string(&Some(String::from("a"))), Some(String::from("a")));
    assert_eq!(clone_opt_string(&None), None);
}
