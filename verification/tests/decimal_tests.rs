use display_settings::decimal::{digit_of, format_decimal, parse_hundredths, parse_port};

#[test]
fn numbers_are_written_without_leading_zeros() {
    assert_eq!(format_decimal(0), "0");
    assert_eq!(format_decimal(7), "7");
    assert_eq!(format_decimal(10), "10");
    assert_eq!(format_decimal(60), "60");
    assert_eq!(format_decimal(1203), "1203");
    assert_eq!(format_decimal(u64::MAX), "18446744073709551615");
}

#[test]
fn written_numbers_match_the_standard_form() {
    for n in [0u64, 1, 9, 10, 11, 99, 100, 101, 65535, 65536, 4294967295, 1 << 62] {
        assert_eq!(format_decimal(n), n.to_string());
    }
}

#[test]
fn digits_have_their_values() {
    assert_eq!(digit_of('0'), Some(0));
    assert_eq!(digit_of('5'), Some(5));
    assert_eq!(digit_of('9'), Some(9));
    assert_eq!(digit_of('/'), None);
    assert_eq!(digit_of(':'), None);
    assert_eq!(digit_of('a'), None);
    assert_eq!(digit_of('٣'), None);
}

#[test]
fn fractions_are_read_as_hundredths() {
    assert_eq!(parse_hundredths("1.25"), Some(125));
    assert_eq!(parse_hundredths("1.250000"), Some(125));
    assert_eq!(parse_hundredths("1.000000"), Some(100));
    assert_eq!(parse_hundredths("1.5"), Some(150));
    assert_eq!(parse_hundredths("1"), Some(100));
    assert_eq!(parse_hundredths("2"), Some(200));
    assert_eq!(parse_hundredths("0"), Some(0));
    assert_eq!(parse_hundredths("0.01"), Some(1));
    assert_eq!(parse_hundredths("12.34"), Some(1234));
}

#[test]
fn fractions_may_lack_digits_on_one_side_of_the_point() {
    assert_eq!(parse_hundredths("1."), Some(100));
    assert_eq!(parse_hundredths(".5"), Some(50));
    assert_eq!(parse_hundredths(".25"), Some(25));
    assert_eq!(parse_hundredths("0."), Some(0));
}

#[test]
fn leading_zeros_do_not_change_a_fraction() {
    assert_eq!(parse_hundredths("0000000000000000000000000000001.5"), Some(150));
    assert_eq!(parse_hundredths("001"), Some(100));
}

#[test]
fn fractions_round_to_the_nearest_hundredth() {
    assert_eq!(parse_hundredths("1.333333"), Some(133));
    assert_eq!(parse_hundredths("1.666667"), Some(167));
    assert_eq!(parse_hundredths("1.004"), Some(100));
    assert_eq!(parse_hundredths("1.006"), Some(101));
    assert_eq!(parse_hundredths("1.0049999999999999999999999"), Some(100));
    assert_eq!(parse_hundredths("1.0050000000000000000000001"), Some(101));
    assert_eq!(parse_hundredths("0.999"), Some(100));
    assert_eq!(parse_hundredths("0.004"), Some(0));
}

#[test]
fn halfway_fractions_round_to_even() {
    assert_eq!(parse_hundredths("0.125"), Some(12));
    assert_eq!(parse_hundredths("0.135"), Some(14));
    assert_eq!(parse_hundredths("0.1250"), Some(12));
    assert_eq!(parse_hundredths("0.12500000"), Some(12));
    assert_eq!(parse_hundredths("0.005"), Some(0));
    assert_eq!(parse_hundredths("0.015"), Some(2));
    assert_eq!(parse_hundredths("1.125"), Some(112));
    assert_eq!(parse_hundredths("1.375"), Some(138));
}

#[test]
fn texts_that_are_no_fraction_are_refused() {
    for text in ["", ".", "..", "1.2.3", "1..2", "abc", "1.2a", "a1", "-1", "+1", "1,5", " 1", "1 ", "1e3", "٣"] {
        assert_eq!(parse_hundredths(text), None, "{:?}", text);
    }
}

#[test]
fn fractions_beyond_the_range_are_refused() {
    assert_eq!(parse_hundredths("42949672.95"), Some(4294967295));
    assert_eq!(parse_hundredths("42949672.954"), Some(4294967295));
    assert_eq!(parse_hundredths("42949672.955"), None);
    assert_eq!(parse_hundredths("42949672.96"), None);
    assert_eq!(parse_hundredths("42949673"), None);
    assert_eq!(parse_hundredths("4294967296"), None);
    assert_eq!(parse_hundredths("99999999999999999999999999999999"), None);
    assert_eq!(parse_hundredths("99999999999999999999999999999999.x"), None);
}

#[test]
fn ports_are_read() {
    assert_eq!(parse_port("0"), 0);
    assert_eq!(parse_port("80"), 80);
    assert_eq!(parse_port("8080"), 8080);
    assert_eq!(parse_port("65535"), 65535);
    assert_eq!(parse_port("+443"), 443);
    assert_eq!(parse_port("0080"), 80);
    assert_eq!(parse_port("00000000000000000000000000000080"), 80);
}

#[test]
fn texts_that_write_no_port_read_as_zero() {
    for text in ["", "+", "-", "-1", "65536", "70000", "99999999999999999999", "80 ", " 80", "8o", "++80", "+-80", "80.0", "0x50", "٨٠"] {
        assert_eq!(parse_port(text), 0, "{:?}", text);
    }
}

#[test]
fn ports_are_read_as_the_standard_parser_reads_them() {
    for text in ["", "+", "0", "+0", "-0", "1", "65535", "65536", "+65535", "000065535", "12a", "a12", "1 2"] {
        assert_eq!(parse_port(text), text.parse::<u16>().unwrap_or(0), "{:?}", text);
    }
}
