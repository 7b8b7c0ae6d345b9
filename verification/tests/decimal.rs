use backend_rs::decimal::{append_identifier, append_number, parse_identifier, render_identifier};

#[test]
fn plain_digits_are_read() {
    assert_eq!(parse_identifier("5"), Some(5));
    assert_eq!(parse_identifier("0"), Some(0));
    assert_eq!(parse_identifier("1234567"), Some(1234567));
}

#[test]
fn a_sign_may_lead() {
    assert_eq!(parse_identifier("-12"), Some(-12));
    assert_eq!(parse_identifier("+7"), Some(7));
    assert_eq!(parse_identifier("-0"), Some(0));
}

#[test]
fn leading_zeros_do_not_count() {
    assert_eq!(parse_identifier("007"), Some(7));
    assert_eq!(parse_identifier("00000000000000000000042"), Some(42));
    assert_eq!(parse_identifier("-0000000000002147483648"), Some(i32::MIN));
}

#[test]
fn nothing_and_a_bare_sign_are_refused() {
    assert_eq!(parse_identifier(""), None);
    assert_eq!(parse_identifier("+"), None);
    assert_eq!(parse_identifier("-"), None);
}

#[test]
fn anything_but_digits_is_refused() {
    assert_eq!(parse_identifier("12a"), None);
    assert_eq!(parse_identifier("a12"), None);
    assert_eq!(parse_identifier(" 5"), None);
    assert_eq!(parse_identifier("5 "), None);
    assert_eq!(parse_identifier("1_000"), None);
    assert_eq!(parse_identifier("--5"), None);
    assert_eq!(parse_identifier("+-5"), None);
    assert_eq!(parse_identifier("5.0"), None);
    assert_eq!(parse_identifier("\u{ff15}"), None);
    assert_eq!(parse_identifier("\u{0665}"), None);
}

#[test]
fn the_range_of_an_identifier_is_kept() {
    assert_eq!(parse_identifier("2147483647"), Some(i32::MAX));
    assert_eq!(parse_identifier("2147483648"), None);
    assert_eq!(parse_identifier("+2147483648"), None);
    assert_eq!(parse_identifier("-2147483648"), Some(i32::MIN));
    assert_eq!(parse_identifier("-2147483649"), None);
    assert_eq!(parse_identifier("99999999999999999999999999"), None);
    assert_eq!(parse_identifier("21474836470"), None);
}

#[test]
fn reading_agrees_with_the_standard_library() {
    let samples = vec![
        "", "0", "1", "-1", "+1", "+", "-", "10", "0010", "2147483647", "2147483648", "-2147483648",
        "-2147483649", "4294967296", "abc", "1e3", "0x10", "١٢", "12 ", " 12", "1-2", "9223372036854775808",
        "-00", "+00", "000", "٣", "3\n",
    ];
    for text in samples {
        assert_eq!(parse_identifier(text), text.parse::<i32>().ok(), "on {:?}", text);
    }
}

#[test]
fn identifiers_are_written_in_decimal() {
    assert_eq!(render_identifier(0), "0");
    assert_eq!(render_identifier(7), "7");
    assert_eq!(render_identifier(10), "10");
    assert_eq!(render_identifier(-3), "-3");
    assert_eq!(render_identifier(1090), "1090");
    assert_eq!(render_identifier(i32::MAX), "2147483647");
    assert_eq!(render_identifier(i32::MIN), "-2147483648");
}

#[test]
fn writing_appends_to_what_is_there() {
    let mut text = String::from("id=");
    append_identifier(&mut text, -45);
    assert_eq!(text, "id=-45");
    append_number(&mut text, 0);
    assert_eq!(text, "id=-450");
    append_number(&mut text, u64::MAX);
    assert_eq!(text, "id=-45018446744073709551615");
}

#[test]
fn what_is_written_is_read_back() {
    let samples = vec![0, 1, -1, 9, 10, 11, 99, 100, 101, 12345, -12345, i32::MAX, i32::MIN, i32::MAX - 1, i32::MIN + 1];
    for id in samples {
        assert_eq!(parse_identifier(&render_identifier(id)), Some(id));
        assert_eq!(render_identifier(id), id.to_string());
    }
}
