use cave_map::decimal::{append_decimal, parse_i32};

fn written(n: i32) -> String {
    let mut text = String::new();
    append_decimal(&mut text, n);
    text
}

#[test]
fn reads_plain_numbers() {
    assert_eq!(parse_i32("0"), Some(0));
    assert_eq!(parse_i32("7"), Some(7));
    assert_eq!(parse_i32("45"), Some(45));
    assert_eq!(parse_i32("1234567890"), Some(1_234_567_890));
}

#[test]
fn reads_signs_and_leading_zeros() {
    assert_eq!(parse_i32("-45"), Some(-45));
    assert_eq!(parse_i32("+45"), Some(45));
    assert_eq!(parse_i32("-0"), Some(0));
    assert_eq!(parse_i32("+0"), Some(0));
    assert_eq!(parse_i32("007"), Some(7));
    assert_eq!(parse_i32("-000000000000000000000012"), Some(-12));
}

#[test]
fn reads_up_to_the_ends_of_the_range() {
    assert_eq!(parse_i32("2147483647"), Some(i32::MAX));
    assert_eq!(parse_i32("+2147483647"), Some(i32::MAX));
    assert_eq!(parse_i32("-2147483648"), Some(i32::MIN));
    assert_eq!(parse_i32("2147483648"), None);
    assert_eq!(parse_i32("+2147483648"), None);
    assert_eq!(parse_i32("-2147483649"), None);
    assert_eq!(parse_i32("21474836470"), None);
    assert_eq!(parse_i32("99999999999999999999999999"), None);
    assert_eq!(parse_i32("-99999999999999999999999999"), None);
}

#[test]
fn refuses_what_is_no_number() {
    for text in ["", "-", "+", "--1", "+-1", "-+1", "1-", "1+1", " 1", "1 ", "1_000", "1.5", "0x10", "a", "12a", "a12"]
    {
        assert_eq!(parse_i32(text), None);
    }
}

#[test]
fn refuses_digits_of_other_scripts() {
    assert_eq!(parse_i32("\u{0663}"), None);
    assert_eq!(parse_i32("1\u{0663}"), None);
    assert_eq!(parse_i32("\u{ff11}\u{ff12}"), None);
    assert_eq!(parse_i32("\u{2212}5"), None);
    assert_eq!(parse_i32("5\u{e9}"), None);
}

#[test]
fn reads_as_the_standard_library_does() {
    let texts = [
        "0", "-0", "+0", "5", "-5", "+5", "05", "", "-", "+", "2147483647", "2147483648", "-2147483648",
        "-2147483649", "4294967296", " 5", "5 ", "５", "1e3", "++5", "0000000000000000000000", "123456789012",
        "-00000000002147483648", "9223372036854775807", "\n7", "7\n",
    ];
    for text in texts {
        assert_eq!(parse_i32(text), text.parse::<i32>().ok());
    }
}

#[test]
fn writes_numbers_in_base_ten() {
    assert_eq!(written(0), "0");
    assert_eq!(written(7), "7");
    assert_eq!(written(10), "10");
    assert_eq!(written(45), "45");
    assert_eq!(written(100), "100");
    assert_eq!(written(-1), "-1");
    assert_eq!(written(-120), "-120");
    assert_eq!(written(i32::MAX), "2147483647");
    assert_eq!(written(i32::MIN), "-2147483648");
}

#[test]
fn writes_at_the_end_of_the_text() {
    let mut text = String::from("x = ");
    append_decimal(&mut text, -30);
    append_decimal(&mut text, 4);
    assert_eq!(text, "x = -304");
}

#[test]
fn reads_back_what_it_wrote() {
    for n in [0, 1, -1, 9, 10, 11, 99, 100, 101, -999, 1000, 65_535, -65_536, i32::MAX, i32::MIN, i32::MIN + 1] {
        assert_eq!(parse_i32(&written(n)), Some(n));
        assert_eq!(written(n), n.to_string());
    }
}
