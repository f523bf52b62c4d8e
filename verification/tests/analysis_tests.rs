use stockr::analysis::{analyze_quotes, StockAnalysis, StockMonitor};
use stockr::date::Date;
use stockr::error::AnalysisError;
use stockr::quote::{RawQuote, PRICE_SCALE};

// 2024-01-01T00:00:00Z
const DAY1: i64 = 1704067200;
// 2024-01-02T00:00:00Z
const DAY2: i64 = 1704153600;
// 2024-01-03T00:00:00Z
const DAY3: i64 = 1704240000;

fn whole(units: u64) -> u64 {
    units * PRICE_SCALE
}

fn rq(timestamp: i64, open: u64, high: u64, low: u64, close: u64) -> RawQuote {
    RawQuote {
        timestamp,
        open: whole(open),
        high: whole(high),
        low: whole(low),
        volume: 1000,
        close: whole(close),
        adjclose: whole(close),
    }
}

fn date(year: i32, month: u8, day: u8) -> Date {
    Date { year, month, day }
}

#[test]
fn two_volatile_days_example() {
    // Day 1: (102 - 99) / 99 > 2%; day 2: (110 - 100) / 100 > 2%.
    let quotes = vec![rq(DAY1, 100, 102, 99, 101), rq(DAY2, 101, 110, 100, 108)];
    let report = analyze_quotes(&quotes).unwrap();
    assert_eq!(report.regular_quotes.len(), 0);
    assert_eq!(report.volatile_quotes.len(), 2);
    assert!(report.volatile_quotes[0].is_volatile);
    assert!(report.volatile_quotes[1].is_volatile);
    assert_eq!(report.min_close_price, whole(101));
    assert_eq!(report.min_close_date, date(2024, 1, 1));
    assert_eq!(report.max_close_price, whole(108));
    assert_eq!(report.max_close_date, date(2024, 1, 2));
    assert_eq!(report.min_low_price, whole(99));
    assert_eq!(report.max_high_price, whole(110));
    assert_eq!(report.start_date, date(2024, 1, 1));
    assert_eq!(report.end_date, date(2024, 1, 2));
}

#[test]
fn empty_series_is_rejected() {
    let quotes: Vec<RawQuote> = vec![];
    assert_eq!(analyze_quotes(&quotes), Err(AnalysisError::EmptySeries));
}

#[test]
fn zero_low_is_degenerate() {
    let quotes = vec![rq(DAY1, 100, 102, 101, 101), rq(DAY2, 101, 110, 0, 108)];
    assert_eq!(analyze_quotes(&quotes), Err(AnalysisError::DegenerateQuote));
}

#[test]
fn out_of_range_timestamp_is_invalid() {
    // Far past the representable calendar.
    let quotes = vec![rq(260000000000000, 100, 102, 101, 101)];
    assert_eq!(analyze_quotes(&quotes), Err(AnalysisError::InvalidTimestamp));
}

#[test]
fn five_digit_year_is_invalid() {
    // 10000-01-01T00:00:00Z, one second past the last representable date.
    let quotes = vec![rq(253402300800, 100, 102, 101, 101)];
    assert_eq!(analyze_quotes(&quotes), Err(AnalysisError::InvalidTimestamp));
}

#[test]
fn first_failure_wins() {
    // The degenerate quote stands before the invalid timestamp.
    let quotes = vec![
        rq(DAY1, 100, 102, 101, 101),
        rq(DAY2, 101, 110, 0, 108),
        rq(253402300800, 100, 102, 101, 101),
    ];
    assert_eq!(analyze_quotes(&quotes), Err(AnalysisError::DegenerateQuote));
}

#[test]
fn partition_is_stable_and_lossless() {
    // Quiet days: range well under 2%; loud days: well over.
    let quotes = vec![
        rq(DAY1, 100, 101, 100, 100), // regular: 1%
        rq(DAY2, 100, 110, 100, 105), // volatile: 10%
        rq(DAY3, 105, 106, 105, 106), // regular: under 1%
    ];
    let report = analyze_quotes(&quotes).unwrap();
    assert_eq!(
        report.regular_quotes.len() + report.volatile_quotes.len(),
        quotes.len()
    );
    assert_eq!(report.regular_quotes.len(), 2);
    assert_eq!(report.volatile_quotes.len(), 1);
    // Source order is kept within each partition.
    assert_eq!(report.regular_quotes[0].date, date(2024, 1, 1));
    assert_eq!(report.regular_quotes[1].date, date(2024, 1, 3));
    assert_eq!(report.volatile_quotes[0].date, date(2024, 1, 2));
    // Re-merging by date reproduces the input series.
    let mut merged: Vec<Date> = report
        .regular_quotes
        .iter()
        .chain(report.volatile_quotes.iter())
        .map(|q| q.date)
        .collect();
    merged.sort_by_key(|d| (d.year, d.month, d.day));
    assert_eq!(
        merged,
        vec![date(2024, 1, 1), date(2024, 1, 2), date(2024, 1, 3)]
    );
}

#[test]
fn extrema_bound_every_close() {
    let quotes = vec![
        rq(DAY1, 100, 101, 100, 100),
        rq(DAY2, 100, 110, 100, 105),
        rq(DAY3, 105, 106, 95, 103),
    ];
    let report = analyze_quotes(&quotes).unwrap();
    for q in report.regular_quotes.iter().chain(report.volatile_quotes.iter()) {
        assert!(report.min_close_price <= q.close && q.close <= report.max_close_price);
        assert!(report.min_low_price <= q.low);
        assert!(report.max_high_price >= q.high);
    }
    assert_eq!(report.min_low_price, whole(95));
    assert_eq!(report.max_high_price, whole(110));
    assert_eq!(report.min_close_price, whole(100));
    assert_eq!(report.max_close_price, whole(105));
}

#[test]
fn ties_keep_the_earliest_date() {
    let quotes = vec![
        rq(DAY1, 100, 101, 100, 100),
        rq(DAY2, 100, 101, 100, 100),
        rq(DAY3, 100, 101, 100, 100),
    ];
    let report = analyze_quotes(&quotes).unwrap();
    assert_eq!(report.min_close_date, date(2024, 1, 1));
    assert_eq!(report.max_close_date, date(2024, 1, 1));
}

#[test]
fn quote_fields_carry_over() {
    let quotes = vec![RawQuote {
        timestamp: DAY1,
        open: 1_234_567,
        high: 2_000_000,
        low: 1_000_000,
        volume: 98765,
        close: 1_500_000,
        adjclose: 1_499_999,
    }];
    let report = analyze_quotes(&quotes).unwrap();
    let q = &report.volatile_quotes[0];
    assert_eq!(q.open, 1_234_567);
    assert_eq!(q.high, 2_000_000);
    assert_eq!(q.low, 1_000_000);
    assert_eq!(q.volume, 98765);
    assert_eq!(q.close, 1_500_000);
    assert_eq!(q.adjclose, 1_499_999);
    assert_eq!(q.date, date(2024, 1, 1));
    assert!(q.is_volatile);
}

#[test]
fn monitor_holds_the_symbol() {
    let monitor = StockMonitor::new(String::from("AAPL"));
    assert_eq!(monitor.symbol, "AAPL");
}

#[test]
fn reports_expose_plain_fields() {
    let quotes = vec![rq(DAY1, 100, 102, 99, 101)];
    let report: StockAnalysis = analyze_quotes(&quotes).unwrap();
    assert_eq!(report.start_date, report.end_date);
    assert_eq!(report.start_date, date(2024, 1, 1));
}
