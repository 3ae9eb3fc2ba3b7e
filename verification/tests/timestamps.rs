use nightshift::posthog::iso_timestamp;
use nightshift::timestamp::{days_to_ymd, is_leap};

#[test]
fn iso_timestamp_known_values() {
    // 2024-01-01T00:00:00.000Z = 1704067200000 ms
    assert_eq!(iso_timestamp(1_704_067_200_000), "2024-01-01T00:00:00.000Z");
    // 2024-01-15T12:30:45.500Z
    assert_eq!(iso_timestamp(1_705_321_845_500), "2024-01-15T12:30:45.500Z");
}

#[test]
fn iso_timestamp_roundtrip() {
    assert_eq!(nightshift::segment::unix_ms_to_iso(1_704_067_200_000), "2024-01-01T00:00:00.000Z");
}

#[test]
fn iso_timestamp_format() {
    assert_eq!(nightshift::tiktok::unix_ms_to_iso(1_704_067_200_000), "2024-01-01T00:00:00.000Z");
}

#[test]
fn epoch_is_first_day() {
    assert_eq!(days_to_ymd(0), (1970, 1, 1));
    assert_eq!(iso_timestamp(0), "1970-01-01T00:00:00.000Z");
}

#[test]
fn leap_days_are_counted() {
    // 2000-02-29 is day 11016; 2000-03-01 follows it.
    assert_eq!(days_to_ymd(11016), (2000, 2, 29));
    assert_eq!(days_to_ymd(11017), (2000, 3, 1));
    // 1972-12-31 is the last day of a leap year.
    assert_eq!(days_to_ymd(1095), (1972, 12, 31));
    assert_eq!(days_to_ymd(1096), (1973, 1, 1));
}

#[test]
fn leap_year_rule() {
    assert!(is_leap(2000));
    assert!(is_leap(2024));
    assert!(!is_leap(1900));
    assert!(!is_leap(2023));
}

#[test]
fn end_of_day_and_milliseconds() {
    assert_eq!(iso_timestamp(86_399_999), "1970-01-01T23:59:59.999Z");
    assert_eq!(iso_timestamp(1_709_251_199_007), "2024-02-29T23:59:59.007Z");
}

#[test]
fn small_negative_timestamps_wrap() {
    // (-500 * 1_000_000) as u32 carries three seconds into the duration.
    assert_eq!(iso_timestamp(-500), "1970-01-01T00:00:03.794Z");
}

#[test]
fn years_past_9999_print_all_digits() {
    // 10000-01-01T00:00:00Z
    assert_eq!(iso_timestamp(253_402_300_800_000), "10000-01-01T00:00:00.000Z");
}

#[test]
fn later_day_numbers_give_later_dates() {
    let days: [u64; 6] = [0, 58, 59, 364, 365, 789];
    for w in days.windows(2) {
        assert!(days_to_ymd(w[0]) < days_to_ymd(w[1]));
    }
    assert_eq!(days_to_ymd(58), (1970, 2, 28));
    assert_eq!(days_to_ymd(59), (1970, 3, 1));
    assert_eq!(days_to_ymd(365), (1971, 1, 1));
}
