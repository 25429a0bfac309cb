use mathlab::math::capped_size;
use mathlab::math::format_clock_parts;
use mathlab::math::formatted;
use mathlab::math::rand;

#[test]
fn capped_size_passes_small_requests() {
    assert_eq!(capped_size(0), 0);
    assert_eq!(capped_size(1), 1);
    assert_eq!(capped_size(10), 10);
    assert_eq!(capped_size(1_000_000), 1_000_000);
}

#[test]
fn capped_size_collapses_past_one_million() {
    assert_eq!(capped_size(1_000_001), 0);
    assert_eq!(capped_size(2_000_000), 0);
    assert_eq!(capped_size(usize::MAX), 0);
}

#[test]
fn format_clock_parts_concatenates_and_pads() {
    // "123" ++ "45" ++ "6" reads as 123456, padded to ten digits.
    assert_eq!(format_clock_parts(123, 45, 6), "1234560000");
    // "999999" ++ "999" ++ "59" reads as 11 digits; the first is cut.
    assert_eq!(format_clock_parts(999999, 999, 59), "9999999959");
    // An all-zero reading collapses to zero.
    assert_eq!(format_clock_parts(0, 0, 0), "0");
    assert_eq!(format_clock_parts(1, 0, 0), "1000000000");
}

#[test]
fn formatted_is_a_short_digit_string() {
    let s = formatted();
    assert!(1 <= s.len() && s.len() <= 10);
    assert!(s.chars().all(|c| c.is_ascii_digit()));
}

#[test]
fn rand_zero_is_zero() {
    assert_eq!(rand(0), 0);
}

#[test]
fn rand_has_requested_digit_count() {
    assert!((1..=9).contains(&rand(1)));
    assert!((10..=99).contains(&rand(2)));
    assert!((100..=999).contains(&rand(3)));
    assert!((100000..=999999).contains(&rand(6)));
    let wide = rand(19);
    assert!((1_000_000_000_000_000_000..=9_999_999_999_999_999_999).contains(&wide));
}

#[test]
fn rand_caps_the_request_at_19_digits() {
    assert_eq!(rand(25).to_string().len(), 19);
    assert_eq!(rand(usize::MAX).to_string().len(), 19);
}
