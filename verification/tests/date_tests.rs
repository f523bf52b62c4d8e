use chrono::Datelike;
use stockr::date::Date;
use stockr::error::AnalysisError;
use stockr::utils::{determine_volatility, timestamp_to_local_date};

fn date(year: i32, month: u8, day: u8) -> Date {
    Date { year, month, day }
}

#[test]
fn epoch_start_is_day_one() {
    assert_eq!(timestamp_to_local_date(0), Ok(date(1970, 1, 1)));
}

#[test]
fn one_day_later() {
    assert_eq!(timestamp_to_local_date(86400), Ok(date(1970, 1, 2)));
}

#[test]
fn a_recent_date() {
    assert_eq!(timestamp_to_local_date(1704067200), Ok(date(2024, 1, 1)));
}

#[test]
fn a_leap_day() {
    assert_eq!(timestamp_to_local_date(1709164800), Ok(date(2024, 2, 29)));
}

#[test]
fn before_the_epoch() {
    assert_eq!(timestamp_to_local_date(-86400), Ok(date(1969, 12, 31)));
}

#[test]
fn mid_day_timestamps_share_the_date() {
    assert_eq!(timestamp_to_local_date(1704067200 + 50000), Ok(date(2024, 1, 1)));
}

#[test]
fn far_out_of_range_fails() {
    assert_eq!(
        timestamp_to_local_date(i64::MAX),
        Err(AnalysisError::InvalidTimestamp)
    );
}

#[test]
fn years_past_9999_fail() {
    // 10000-01-01T00:00:00Z.
    assert_eq!(
        timestamp_to_local_date(253402300800),
        Err(AnalysisError::InvalidTimestamp)
    );
    // The last second of 9999 still converts.
    assert_eq!(
        timestamp_to_local_date(253402300799),
        Ok(date(9999, 12, 31))
    );
}

#[test]
fn conversion_matches_the_calendar_library() {
    for ts in [0i64, 86399, 86400, 1000000000, 1704067200, 1709164800, -1] {
        let got = timestamp_to_local_date(ts).unwrap();
        let expected = chrono::DateTime::from_timestamp(ts, 0).unwrap().date_naive();
        assert_eq!(got.year, expected.year());
        assert_eq!(got.month as u32, expected.month());
        assert_eq!(got.day as u32, expected.day());
    }
}

#[test]
fn next_day_steps_through_month_and_year_ends() {
    assert_eq!(date(2024, 1, 1).next_day(), date(2024, 1, 2));
    assert_eq!(date(2024, 1, 31).next_day(), date(2024, 2, 1));
    assert_eq!(date(2024, 2, 28).next_day(), date(2024, 2, 29));
    assert_eq!(date(2023, 2, 28).next_day(), date(2023, 3, 1));
    assert_eq!(date(2023, 12, 31).next_day(), date(2024, 1, 1));
    assert_eq!(date(1900, 2, 28).next_day(), date(1900, 3, 1));
    assert_eq!(date(2000, 2, 28).next_day(), date(2000, 2, 29));
}

#[test]
fn prev_day_steps_through_month_and_year_starts() {
    assert_eq!(date(2024, 1, 2).prev_day(), date(2024, 1, 1));
    assert_eq!(date(2024, 2, 1).prev_day(), date(2024, 1, 31));
    assert_eq!(date(2024, 3, 1).prev_day(), date(2024, 2, 29));
    assert_eq!(date(2023, 3, 1).prev_day(), date(2023, 2, 28));
    assert_eq!(date(2024, 1, 1).prev_day(), date(2023, 12, 31));
}

#[test]
fn calendar_order() {
    assert!(date(2023, 12, 31).le(&date(2024, 1, 1)));
    assert!(date(2024, 1, 1).le(&date(2024, 1, 1)));
    assert!(date(2024, 1, 1).le(&date(2024, 2, 1)));
    assert!(!date(2024, 2, 1).le(&date(2024, 1, 31)));
}

#[test]
fn threshold_is_strict() {
    // Exactly 2% is regular.
    assert!(!determine_volatility(1_020_000, 1_000_000));
    // One ten-thousandth over 2% is volatile.
    assert!(determine_volatility(1_020_001, 1_000_000));
    // Under the threshold.
    assert!(!determine_volatility(1_010_000, 1_000_000));
    // High below low reads as a zero-or-negative range: regular.
    assert!(!determine_volatility(990_000, 1_000_000));
}
