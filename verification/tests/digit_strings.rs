use mathlab::math::format_number_10d;
use mathlab::math::string_to_u64;
use mathlab::math::u64_to_string;

#[test]
fn string_to_u64_accepts_digits() {
    assert_eq!(string_to_u64("12345".to_string()), Ok(12345));
    assert_eq!(string_to_u64("0".to_string()), Ok(0));
    assert_eq!(string_to_u64("+42".to_string()), Ok(42));
    assert_eq!(
        string_to_u64("18446744073709551615".to_string()),
        Ok(u64::MAX)
    );
}

#[test]
fn string_to_u64_rejects_everything_else() {
    assert!(string_to_u64("".to_string()).is_err());
    assert!(string_to_u64("+".to_string()).is_err());
    assert!(string_to_u64("abc".to_string()).is_err());
    assert!(string_to_u64("-1".to_string()).is_err());
    assert!(string_to_u64(" 1".to_string()).is_err());
    assert!(string_to_u64("12.5".to_string()).is_err());
    // One past u64::MAX overflows.
    assert!(string_to_u64("18446744073709551616".to_string()).is_err());
}

#[test]
fn u64_to_string_prints_decimal() {
    assert_eq!(u64_to_string(0), "0");
    assert_eq!(u64_to_string(7), "7");
    assert_eq!(u64_to_string(123), "123");
    assert_eq!(u64_to_string(1000000), "1000000");
    assert_eq!(u64_to_string(u64::MAX), "18446744073709551615");
}

#[test]
fn print_then_parse_round_trip() {
    for x in [0u64, 1, 9, 10, 99, 12345, 1000000007, u64::MAX] {
        assert_eq!(string_to_u64(u64_to_string(x)), Ok(x));
    }
}

#[test]
fn format_number_10d_pads_short_numbers() {
    assert_eq!(format_number_10d(123), 1230000000);
    assert_eq!(format_number_10d(0), 0);
    assert_eq!(format_number_10d(9), 9000000000);
    assert_eq!(format_number_10d(9999999999), 9999999999);
}

#[test]
fn format_number_10d_keeps_last_ten_digits() {
    assert_eq!(format_number_10d(12345678901), 2345678901);
    assert_eq!(format_number_10d(10000000000), 0);
    assert_eq!(format_number_10d(u64::MAX), 3709551615);
}
