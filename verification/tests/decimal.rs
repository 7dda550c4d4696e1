use todo_fargate::decimal::{format_i64, parse_i64};

#[test]
fn formats_zero_and_small_numbers() {
    assert_eq!(format_i64(0), "0");
    assert_eq!(format_i64(7), "7");
    assert_eq!(format_i64(10), "10");
    assert_eq!(format_i64(-1), "-1");
    assert_eq!(format_i64(-120), "-120");
}

#[test]
fn formats_a_creation_time() {
    assert_eq!(format_i64(1_700_000_000_000), "1700000000000");
}

#[test]
fn formats_the_extremes() {
    assert_eq!(format_i64(i64::MAX), "9223372036854775807");
    assert_eq!(format_i64(i64::MIN), "-9223372036854775808");
}

#[test]
fn formats_as_the_standard_library_does() {
    let samples: Vec<i64> = vec![0, 1, -1, 9, 10, 99, 100, -100, 1_700_000_000_000, i64::MAX, i64::MIN];
    for v in samples {
        assert_eq!(format_i64(v), v.to_string());
    }
}

#[test]
fn parses_plain_digits() {
    assert_eq!(parse_i64("0"), Some(0));
    assert_eq!(parse_i64("1700000000000"), Some(1_700_000_000_000));
}

#[test]
fn parses_signs() {
    assert_eq!(parse_i64("+5"), Some(5));
    assert_eq!(parse_i64("-5"), Some(-5));
    assert_eq!(parse_i64("-0"), Some(0));
}

#[test]
fn parses_leading_zeros() {
    assert_eq!(parse_i64("007"), Some(7));
    assert_eq!(parse_i64("-000000000000000000000000012"), Some(-12));
}

#[test]
fn parses_the_extremes() {
    assert_eq!(parse_i64("9223372036854775807"), Some(i64::MAX));
    assert_eq!(parse_i64("-9223372036854775808"), Some(i64::MIN));
}

#[test]
fn rejects_numbers_that_do_not_fit() {
    assert_eq!(parse_i64("9223372036854775808"), None);
    assert_eq!(parse_i64("-9223372036854775809"), None);
    assert_eq!(parse_i64("99999999999999999999999999"), None);
}

#[test]
fn rejects_what_is_no_number() {
    assert_eq!(parse_i64(""), None);
    assert_eq!(parse_i64("-"), None);
    assert_eq!(parse_i64("+"), None);
    assert_eq!(parse_i64("12a"), None);
    assert_eq!(parse_i64(" 1"), None);
    assert_eq!(parse_i64("1 "), None);
    assert_eq!(parse_i64("1.5"), None);
    assert_eq!(parse_i64("1e3"), None);
    assert_eq!(parse_i64("--1"), None);
    assert_eq!(parse_i64("+-1"), None);
    assert_eq!(parse_i64("\u{0661}"), None);
}

#[test]
fn parses_as_the_standard_library_does() {
    let samples = vec![
        "", "0", "-0", "+0", "-", "+", "1", "-1", "+1", "0009", "12a", "a12", " 12", "12 ",
        "9223372036854775807", "9223372036854775808", "-9223372036854775808",
        "-9223372036854775809", "1_000", "1.0", "٣", "++1", "00000000000000000000000000000001",
    ];
    for s in samples {
        assert_eq!(parse_i64(s), s.parse::<i64>().ok(), "for {:?}", s);
    }
}

#[test]
fn text_of_a_number_reads_back_as_that_number() {
    let samples: Vec<i64> = vec![0, 1, -1, 42, -42, 1_700_000_000_000, i64::MAX, i64::MIN];
    for v in samples {
        assert_eq!(parse_i64(&format_i64(v)), Some(v));
    }
}
