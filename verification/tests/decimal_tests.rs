use session_auth::decimal::format_account_id;
use session_auth::decimal::parse_account_id;

#[test]
fn formats_ids_in_decimal() {
    assert_eq!(format_account_id(0), "0");
    assert_eq!(format_account_id(7), "7");
    assert_eq!(format_account_id(10), "10");
    assert_eq!(format_account_id(1234567890), "1234567890");
    assert_eq!(format_account_id(-42), "-42");
    assert_eq!(format_account_id(i64::MAX), "9223372036854775807");
    assert_eq!(format_account_id(i64::MIN), "-9223372036854775808");
}

#[test]
fn parses_what_the_standard_parser_parses() {
    let cases = [
        "0", "1", "-1", "+1", "007", "-0", "+0", "9223372036854775807", "9223372036854775808",
        "-9223372036854775808", "-9223372036854775809", "", "+", "-", " 1", "1 ", "1a", "a", "--1",
        "+-1", "１", "99999999999999999999999999", "-99999999999999999999999999", "12_3", "0x10",
    ];
    for text in cases {
        assert_eq!(parse_account_id(text), text.parse::<i64>().ok(), "{text:?}");
    }
}

#[test]
fn parse_reads_back_what_format_wrote() {
    for id in [0i64, 1, -1, 9, 10, 99, 100, 12345, -98765, i64::MAX, i64::MIN, i64::MAX - 1, i64::MIN + 1] {
        assert_eq!(parse_account_id(&format_account_id(id)), Some(id));
    }
}
