use stockr::analysis::{analyze_quotes, StockAnalysis};
use stockr::codec::encode_report;
use stockr::date::Date;
use stockr::decode::decode_report;
use stockr::error::SchemaError;
use stockr::quote::{DailyQuote, RawQuote};

fn date(year: i32, month: u8, day: u8) -> Date {
    Date { year, month, day }
}

fn day(d: Date, volatile: bool) -> DailyQuote {
    DailyQuote {
        date: d,
        open: 1_000_000,
        high: 1_020_000,
        low: 990_000,
        volume: 1000,
        close: 1_010_000,
        adjclose: 1_010_000,
        is_volatile: volatile,
    }
}

fn sample_report() -> StockAnalysis {
    StockAnalysis {
        min_close_price: 1_010_000,
        max_close_price: 1_080_000,
        min_close_date: date(2024, 1, 1),
        max_close_date: date(2024, 1, 2),
        start_date: date(2024, 1, 1),
        end_date: date(2024, 1, 2),
        min_low_price: 990_000,
        max_high_price: 1_100_000,
        regular_quotes: vec![day(date(2024, 1, 1), false)],
        volatile_quotes: vec![day(date(2024, 1, 2), true)],
    }
}

#[test]
fn encode_produces_the_wire_schema() {
    let report = StockAnalysis {
        regular_quotes: vec![],
        volatile_quotes: vec![day(date(2024, 1, 2), true)],
        ..sample_report()
    };
    let bytes = encode_report(&report);
    let text = String::from_utf8(bytes).unwrap();
    assert_eq!(
        text,
        "{\"min_close_price\":101.0000,\"max_close_price\":108.0000,\"min_close_date\":\"2024-01-01\",\"max_close_date\":\"2024-01-02\",\"start_date\":\"2024-01-01\",\"end_date\":\"2024-01-02\",\"min_low_price\":99.0000,\"max_high_price\":110.0000,\"regular_quotes\":[],\"volatile_quotes\":[{\"date\":\"2024-01-02\",\"open\":100.0000,\"high\":102.0000,\"low\":99.0000,\"close\":101.0000,\"volume\":1000,\"adjclose\":101.0000,\"is_volatile\":true}]}"
    );
}

#[test]
fn encode_is_valid_json() {
    let bytes = encode_report(&sample_report());
    let value: serde_json::Value = serde_json::from_slice(&bytes).unwrap();
    assert_eq!(value["min_close_price"], 101.0);
    assert_eq!(value["max_high_price"], 110.0);
    assert_eq!(value["start_date"], "2024-01-01");
    assert_eq!(value["volatile_quotes"][0]["is_volatile"], true);
    assert_eq!(value["volatile_quotes"][0]["volume"], 1000);
}

#[test]
fn round_trip_reproduces_the_report() {
    let report = sample_report();
    let bytes = encode_report(&report);
    let back = decode_report(&bytes).unwrap();
    assert_eq!(back, report);
}

#[test]
fn round_trip_from_an_analysis() {
    let quotes = vec![
        RawQuote {
            timestamp: 1704067200,
            open: 1_000_000,
            high: 1_010_000,
            low: 1_000_000,
            volume: 1234,
            close: 1_005_000,
            adjclose: 1_004_000,
        },
        RawQuote {
            timestamp: 1704153600,
            open: 1_005_000,
            high: 1_100_000,
            low: 1_000_000,
            volume: 4321,
            close: 1_080_000,
            adjclose: 1_079_000,
        },
    ];
    let report = analyze_quotes(&quotes).unwrap();
    let back = decode_report(&encode_report(&report)).unwrap();
    assert_eq!(back, report);
}

#[test]
fn decode_accepts_a_canonical_payload() {
    let text = "{\"min_close_price\":101.0000,\"max_close_price\":108.0000,\"min_close_date\":\"2024-01-01\",\"max_close_date\":\"2024-01-02\",\"start_date\":\"2024-01-01\",\"end_date\":\"2024-01-02\",\"min_low_price\":99.0000,\"max_high_price\":110.0000,\"regular_quotes\":[],\"volatile_quotes\":[]}";
    let report = decode_report(text.as_bytes()).unwrap();
    assert_eq!(report.min_close_price, 1_010_000);
    assert_eq!(report.max_close_price, 1_080_000);
    assert_eq!(report.min_close_date, date(2024, 1, 1));
    assert_eq!(report.end_date, date(2024, 1, 2));
    assert_eq!(report.min_low_price, 990_000);
    assert_eq!(report.max_high_price, 1_100_000);
    assert!(report.regular_quotes.is_empty());
    assert!(report.volatile_quotes.is_empty());
}

#[test]
fn decode_rejects_empty_input() {
    assert_eq!(decode_report(b""), Err(SchemaError::Malformed));
}

#[test]
fn decode_rejects_missing_fields() {
    // The object stops after the first field.
    let text = "{\"min_close_price\":101.0000}";
    assert_eq!(decode_report(text.as_bytes()), Err(SchemaError::Malformed));
}

#[test]
fn decode_rejects_a_bad_date() {
    let text = "{\"min_close_price\":101.0000,\"max_close_price\":108.0000,\"min_close_date\":\"2024-13-01\",\"max_close_date\":\"2024-01-02\",\"start_date\":\"2024-01-01\",\"end_date\":\"2024-01-02\",\"min_low_price\":99.0000,\"max_high_price\":110.0000,\"regular_quotes\":[],\"volatile_quotes\":[]}";
    assert_eq!(decode_report(text.as_bytes()), Err(SchemaError::Malformed));
}

#[test]
fn decode_rejects_an_impossible_day() {
    let text = "{\"min_close_price\":101.0000,\"max_close_price\":108.0000,\"min_close_date\":\"2023-02-29\",\"max_close_date\":\"2024-01-02\",\"start_date\":\"2024-01-01\",\"end_date\":\"2024-01-02\",\"min_low_price\":99.0000,\"max_high_price\":110.0000,\"regular_quotes\":[],\"volatile_quotes\":[]}";
    assert_eq!(decode_report(text.as_bytes()), Err(SchemaError::Malformed));
}

#[test]
fn decode_accepts_a_leap_day() {
    let text = "{\"min_close_price\":101.0000,\"max_close_price\":108.0000,\"min_close_date\":\"2024-02-29\",\"max_close_date\":\"2024-01-02\",\"start_date\":\"2024-01-01\",\"end_date\":\"2024-01-02\",\"min_low_price\":99.0000,\"max_high_price\":110.0000,\"regular_quotes\":[],\"volatile_quotes\":[]}";
    let report = decode_report(text.as_bytes()).unwrap();
    assert_eq!(report.min_close_date, date(2024, 2, 29));
}

#[test]
fn decode_rejects_trailing_bytes() {
    let mut bytes = encode_report(&sample_report());
    bytes.push(b' ');
    assert_eq!(decode_report(&bytes), Err(SchemaError::Malformed));
}

#[test]
fn decode_rejects_a_truncated_payload() {
    let bytes = encode_report(&sample_report());
    assert_eq!(
        decode_report(&bytes[..bytes.len() - 1]),
        Err(SchemaError::Malformed)
    );
}

#[test]
fn decode_rejects_leading_zeros() {
    let text = "{\"min_close_price\":0101.0000,\"max_close_price\":108.0000,\"min_close_date\":\"2024-01-01\",\"max_close_date\":\"2024-01-02\",\"start_date\":\"2024-01-01\",\"end_date\":\"2024-01-02\",\"min_low_price\":99.0000,\"max_high_price\":110.0000,\"regular_quotes\":[],\"volatile_quotes\":[]}";
    assert_eq!(decode_report(text.as_bytes()), Err(SchemaError::Malformed));
}

#[test]
fn round_trip_keeps_extreme_prices_and_volumes() {
    let mut report = sample_report();
    report.min_close_price = 0;
    report.max_close_price = u64::MAX;
    report.volatile_quotes[0].volume = u64::MAX;
    report.volatile_quotes[0].open = 1;
    let back = decode_report(&encode_report(&report)).unwrap();
    assert_eq!(back, report);
}

#[test]
fn decode_rejects_numbers_past_u64() {
    // One past the largest representable whole part.
    let text = "{\"min_close_price\":18446744073709551616.0000,\"max_close_price\":108.0000,\"min_close_date\":\"2024-01-01\",\"max_close_date\":\"2024-01-02\",\"start_date\":\"2024-01-01\",\"end_date\":\"2024-01-02\",\"min_low_price\":99.0000,\"max_high_price\":110.0000,\"regular_quotes\":[],\"volatile_quotes\":[]}";
    assert_eq!(decode_report(text.as_bytes()), Err(SchemaError::Malformed));
}

#[test]
fn decode_rejects_overlong_digit_runs() {
    // Twenty-one digits never fit, whatever their value.
    let text = "{\"min_close_price\":100000000000000000000.0000,\"max_close_price\":108.0000,\"min_close_date\":\"2024-01-01\",\"max_close_date\":\"2024-01-02\",\"start_date\":\"2024-01-01\",\"end_date\":\"2024-01-02\",\"min_low_price\":99.0000,\"max_high_price\":110.0000,\"regular_quotes\":[],\"volatile_quotes\":[]}";
    assert_eq!(decode_report(text.as_bytes()), Err(SchemaError::Malformed));
}

#[test]
fn round_trip_with_multiple_quotes_per_series() {
    let mut report = sample_report();
    report.regular_quotes = vec![
        day(date(2024, 1, 1), false),
        day(date(2024, 1, 3), false),
        day(date(2024, 1, 5), false),
    ];
    report.volatile_quotes = vec![day(date(2024, 1, 2), true), day(date(2024, 1, 4), true)];
    let back = decode_report(&encode_report(&report)).unwrap();
    assert_eq!(back, report);
}

#[test]
fn zero_prices_encode_with_a_zero_whole_part() {
    let mut report = sample_report();
    report.min_close_price = 5;
    let bytes = encode_report(&report);
    let text = String::from_utf8(bytes).unwrap();
    assert!(text.starts_with("{\"min_close_price\":0.0005,"));
}
