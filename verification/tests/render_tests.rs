use stockr::analysis::analyze_quotes;
use stockr::date::Date;
use stockr::error::RenderError;
use stockr::quote::{DailyQuote, RawQuote};
use stockr::render::{chart_from_analysis, date_label, plot_stock_quotes, PlotQuote};

fn date(year: i32, month: u8, day: u8) -> Date {
    Date { year, month, day }
}

fn pq(d: Date, open: u64, high: u64, low: u64, close: u64) -> PlotQuote {
    (d, open, high, low, close)
}

#[test]
fn plan_extends_the_date_range_by_one_day() {
    let regular = vec![pq(date(2024, 1, 2), 100, 110, 95, 105)];
    let volatile: Vec<PlotQuote> = vec![];
    let plan = plot_stock_quotes(
        &regular,
        &volatile,
        date(2024, 1, 2),
        date(2024, 3, 1),
        950_000,
        1_100_000,
        "AAPL",
    )
    .unwrap();
    assert_eq!(plan.x_start, date(2024, 1, 1));
    assert_eq!(plan.x_end, date(2024, 3, 2));
    assert_eq!(plan.y_low, 950_000);
    assert_eq!(plan.y_high, 1_100_000);
    assert_eq!(plan.x_tick_count, 10);
    assert_eq!(plan.caption, "Monitoring AAPL (Past 6 Months)");
    assert_eq!(plan.legend_regular, "Empty Candlestick: Regular Quotes");
    assert_eq!(plan.legend_volatile, "Filled Candlestick: Volatile Quotes");
}

#[test]
fn a_flat_price_range_is_widened() {
    let regular = vec![pq(date(2024, 1, 2), 100, 100, 100, 100)];
    let volatile: Vec<PlotQuote> = vec![];
    let plan = plot_stock_quotes(
        &regular,
        &volatile,
        date(2024, 1, 2),
        date(2024, 1, 2),
        1_000_000,
        1_000_000,
        "AAPL",
    )
    .unwrap();
    // One whole currency unit of margin on each side.
    assert_eq!(plan.y_low, 990_000);
    assert_eq!(plan.y_high, 1_010_000);
    assert!(plan.y_low < plan.y_high);
}

#[test]
fn a_flat_range_near_zero_stops_at_zero() {
    let regular = vec![pq(date(2024, 1, 2), 1, 1, 1, 1)];
    let volatile: Vec<PlotQuote> = vec![];
    let plan = plot_stock_quotes(
        &regular,
        &volatile,
        date(2024, 1, 2),
        date(2024, 1, 2),
        5000,
        5000,
        "AAPL",
    )
    .unwrap();
    assert_eq!(plan.y_low, 0);
    assert_eq!(plan.y_high, 15000);
}

#[test]
fn candles_carry_color_fill_and_width() {
    let regular = vec![
        pq(date(2024, 1, 2), 100, 110, 95, 105), // close above open: bullish
        pq(date(2024, 1, 3), 105, 106, 90, 95),  // close below open: bearish
    ];
    let volatile = vec![pq(date(2024, 1, 4), 95, 120, 94, 95)]; // close == open: bullish
    let plan = plot_stock_quotes(
        &regular,
        &volatile,
        date(2024, 1, 2),
        date(2024, 1, 4),
        900_000,
        1_200_000,
        "TSLA",
    )
    .unwrap();
    assert_eq!(plan.regular_candles.len(), 2);
    assert_eq!(plan.volatile_candles.len(), 1);
    assert!(plan.regular_candles[0].bullish);
    assert!(!plan.regular_candles[1].bullish);
    assert!(plan.volatile_candles[0].bullish);
    assert!(!plan.regular_candles[0].filled);
    assert!(!plan.regular_candles[1].filled);
    assert!(plan.volatile_candles[0].filled);
    assert_eq!(plan.regular_candles[0].width, 5);
    assert_eq!(plan.volatile_candles[0].width, 5);
    assert_eq!(plan.regular_candles[0].date, date(2024, 1, 2));
    assert_eq!(plan.regular_candles[0].open, 100);
    assert_eq!(plan.regular_candles[0].high, 110);
    assert_eq!(plan.regular_candles[0].low, 95);
    assert_eq!(plan.regular_candles[0].close, 105);
}

#[test]
fn out_of_order_series_fail() {
    let regular = vec![
        pq(date(2024, 1, 3), 100, 110, 95, 105),
        pq(date(2024, 1, 2), 100, 110, 95, 105),
    ];
    let volatile: Vec<PlotQuote> = vec![];
    let r = plot_stock_quotes(
        &regular,
        &volatile,
        date(2024, 1, 2),
        date(2024, 1, 3),
        950_000,
        1_100_000,
        "AAPL",
    );
    assert_eq!(r.unwrap_err(), RenderError::NonChronological);
}

#[test]
fn equal_dates_are_chronological() {
    let regular = vec![
        pq(date(2024, 1, 2), 100, 110, 95, 105),
        pq(date(2024, 1, 2), 100, 110, 95, 105),
    ];
    let volatile: Vec<PlotQuote> = vec![];
    assert!(plot_stock_quotes(
        &regular,
        &volatile,
        date(2024, 1, 2),
        date(2024, 1, 2),
        950_000,
        1_100_000,
        "AAPL",
    )
    .is_ok());
}

#[test]
fn tick_labels_use_short_month_and_padded_day() {
    assert_eq!(date_label(&date(2024, 1, 5)), "Jan 05");
    assert_eq!(date_label(&date(2024, 12, 31)), "Dec 31");
    assert_eq!(date_label(&date(2024, 9, 10)), "Sep 10");
}

#[test]
fn chart_rows_follow_the_open_close_low_high_order() {
    let quotes = vec![DailyQuote {
        date: date(2024, 1, 2),
        open: 1,
        high: 4,
        low: 2,
        volume: 10,
        close: 3,
        adjclose: 3,
        is_volatile: false,
    }];
    let data = chart_from_analysis(&quotes, &0);
    assert_eq!(data.dates, vec![date(2024, 1, 2)]);
    assert_eq!(data.ohlc, vec![(1, 3, 2, 4)]);
}

#[test]
fn plot_rows_follow_the_open_high_low_close_order() {
    let quotes = vec![
        RawQuote {
            timestamp: 1704153600,
            open: 1,
            high: 4,
            low: 2,
            volume: 10,
            close: 3,
            adjclose: 3,
        },
    ];
    let report = analyze_quotes(&quotes).unwrap();
    let rows = report.get_volatile_quotes_for_plot();
    assert_eq!(rows, vec![(date(2024, 1, 2), 1, 4, 2, 3)]);
    assert!(report.get_regular_quotes_for_plot().is_empty());
}
