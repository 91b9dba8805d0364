use tempo_cli::text::{i64_to_decimal, parse_i64, parse_u64, str_equals, u64_to_decimal};

#[test]
fn decimal_text_of_integers() {
    assert_eq!(u64_to_decimal(0), "0");
    assert_eq!(u64_to_decimal(42), "42");
    assert_eq!(u64_to_decimal(u64::MAX), u64::MAX.to_string());
    assert_eq!(i64_to_decimal(-7), "-7");
    assert_eq!(i64_to_decimal(i64::MIN), i64::MIN.to_string());
    assert_eq!(i64_to_decimal(i64::MAX), i64::MAX.to_string());
}

#[test]
fn parse_u64_like_std() {
    for s in ["0", "007", "+5", "18446744073709551615", "18446744073709551616", "", "+", "-1", "1a", " 1", "12345678901234567890123"] {
        assert_eq!(parse_u64(s), s.parse::<u64>().ok(), "input {:?}", s);
    }
}

#[test]
fn parse_i64_like_std() {
    for s in ["0", "-0", "+0", "-9223372036854775808", "-9223372036854775809", "9223372036854775807", "9223372036854775808", "", "-", "+", "--1", "1704067200", "17e2"] {
        assert_eq!(parse_i64(s), s.parse::<i64>().ok(), "input {:?}", s);
    }
}

#[test]
fn decimal_round_trip_values() {
    for n in [0u64, 9, 10, 99, 100, 1704067200000000000, u64::MAX] {
        assert_eq!(parse_u64(&u64_to_decimal(n)), Some(n));
    }
    for n in [0i64, -1, 1, i64::MIN, i64::MAX, -1704067200] {
        assert_eq!(parse_i64(&i64_to_decimal(n)), Some(n));
    }
}

#[test]
fn string_equality() {
    assert!(str_equals("now", "now"));
    assert!(!str_equals("now", "no"));
    assert!(!str_equals("now", "nox"));
    assert!(str_equals("", ""));
}
