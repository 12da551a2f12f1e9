use file_size::fit_4;

fn check(size: u64, s: &str) {
    assert_eq!(&fit_4(size), s);
}

#[test]
fn check_size_displays() {
    check(1, "1");
    check(12, "12");
    check(183, "183");
    check(999, "999");
    check(9999, "9999");
    check(10000, "10K");
    check(12345, "12K");
    check(56789, "57K");
    check(456_789, "457K");
    check(666_666, "667K");
    check(999_000, "999K");
    check(999_499, "999K");
    check(999_500, "1.0M");
    check(999_999, "1.0M");
    check(3_456_789, "3.5M");
    check(9_556_789, "9.6M");
    check(9_950_000, "9.9M");
    check(9_950_001, "10M");
    check(9_956_789, "10M");
    check(12_345_678, "12M");
    check(99_999_999, "100M");
    check(212_345_678, "212M");
    check(999_000_999, "999M");
    check(999_499_999, "999M");
    check(999_500_000, "1.0G");
    check(999_999_999, "1.0G");
    check(3_456_789_012, "3.5G");
    check(9_950_000_000, "9.9G");
    check(9_950_000_001, "10G");
    check(23_456_789_012, "23G");
    check(123_456_789_012, "123G");
    check(999_499_999_999, "999G");
    check(999_500_000_000, "1.0T");
    check(7_155_456_789_012, "7.2T");
    check(9_950_000_000_000, "9.9T");
    check(9_950_000_000_001, "10T");
    check(87_123_456_789_012, "87T");
    check(487_123_456_789_012, "487T");
    check(999_499_999_999_999, "999T");
    check(999_500_000_000_000, "1.0P");
    check(8_987_123_456_789_012, "9.0P");
    check(9_950_000_000_000_000, "9.9P");
    check(9_950_000_000_000_001, "10P");
    check(368_640_042_346_630_455, "369P");
    check(999_499_999_999_999_935, "999P");
    check(999_499_999_999_999_936, "huge");
    check(1_675_359_327_149_419_060, "huge");
}

#[test]
fn zero_is_written_as_one_digit() {
    check(0, "0");
}

#[test]
fn largest_size_is_huge() {
    check(u64::MAX, "huge");
}

#[test]
fn small_sizes_are_plain_digits() {
    for size in [0u64, 7, 10, 100, 1_000, 4_321, 9_999] {
        assert_eq!(fit_4(size), size.to_string());
    }
}

#[test]
fn kilo_band_rounds_to_nearest() {
    check(10_499, "10K");
    check(10_501, "11K");
    check(998_500, "998K");
    check(998_501, "999K");
}

#[test]
fn whole_band_tie_goes_to_even() {
    check(10_500, "10K");
    check(11_500, "12K");
    check(12_500_000, "12M");
    check(13_500_000_000, "14G");
}

#[test]
fn tenths_band_tie_goes_down() {
    check(1_050_000, "1.0M");
    check(1_050_001, "1.1M");
    check(2_250_000_000, "2.2G");
}

#[test]
fn tenths_band_shape() {
    for size in [999_500u64, 1_000_000, 5_049_999, 9_949_999, 9_950_000] {
        let s = fit_4(size);
        let b = s.as_bytes();
        assert_eq!(b.len(), 4);
        assert!(b[0].is_ascii_digit());
        assert_eq!(b[1], b'.');
        assert!(b[2].is_ascii_digit());
        assert_eq!(b[3], b'M');
    }
}

#[test]
fn mega_whole_band_shape() {
    for size in [9_950_001u64, 10_000_000, 99_499_999, 500_000_000, 999_499_999] {
        let s = fit_4(size);
        assert!(s.len() >= 2 && s.len() <= 4);
        assert!(s.ends_with('M'));
        assert!(s[..s.len() - 1].bytes().all(|c| c.is_ascii_digit()));
    }
}

#[test]
fn kilo_band_equals_rounded_thousands() {
    check(123_456, "123K");
    check(654_321, "654K");
}

#[test]
fn band_edges() {
    check(999_499_999_999, "999G");
    check(999_500_000_000, "1.0T");
    check(9_950_000_000_001, "10T");
    check(999_500_000_000_000, "1.0P");
}

#[test]
fn displayed_value_never_drops_within_a_tier() {
    check(9_949_999, "9.9M");
    check(9_950_000, "9.9M");
    check(9_950_001, "10M");
    check(10_449_999, "10M");
    check(10_500_001, "11M");
}

#[test]
fn length_stays_within_four_below_huge() {
    let mut size: u64 = 1;
    while size < 999_499_999_999_999_936 {
        assert!(fit_4(size).len() <= 4, "size {}", size);
        assert!(fit_4(size - 1).len() <= 4, "size {}", size - 1);
        size = size.saturating_mul(3);
    }
    assert!(fit_4(999_499_999_999_999_935).len() <= 4);
}

#[test]
fn same_size_gives_same_text() {
    for size in [0u64, 999, 999_999, 7_155_456_789_012, u64::MAX] {
        assert_eq!(fit_4(size), fit_4(size));
    }
}
