//! Chart layout: turns the two partitioned series into a drawing plan — a
//! date axis widened by one day on each side, a price axis from the low
//! and high bounds (widened when degenerate), one candle per day with the
//! bullish/bearish color choice and the fill/outline volatility encoding,
//! and the legend and tick labels. A backend draws the plan; everything it
//! needs is decided and checked here.

use vstd::prelude::*;
use crate::analysis::StockAnalysis;
use crate::date::{max_date, min_date, spec_next_day, spec_prev_day, Date};
use crate::error::RenderError;
use crate::quote::DailyQuote;

verus! {

/// One day of a series as the renderer consumes it:
/// (date, open, high, low, close).
pub type PlotQuote = (Date, u64, u64, u64, u64);

/// One candle to draw. `bullish` picks the green/red pair (green exactly
/// when the close is at or above the open); `filled` marks the volatile
/// series, the sole visual signal for volatility.
#[derive(Clone, Copy, PartialEq, Eq, Structural, Debug)]
pub struct Candle {
    pub date: Date,
    pub open: u64,
    pub high: u64,
    pub low: u64,
    pub close: u64,
    pub bullish: bool,
    pub filled: bool,
    pub width: u32,
}

/// Everything a drawing backend needs for one chart.
#[derive(Debug)]
pub struct ChartPlan {
    pub caption: String,
    pub x_start: Date,
    pub x_end: Date,
    pub y_low: u64,
    pub y_high: u64,
    pub x_tick_count: u32,
    pub regular_candles: Vec<Candle>,
    pub volatile_candles: Vec<Candle>,
    pub legend_regular: String,
    pub legend_volatile: String,
}

/// The stroke width of every candle.
pub const CANDLE_WIDTH: u32 = 5;

/// How far each side of a degenerate (flat) price range is pushed apart,
/// in fixed-point units: one whole currency unit.
pub const FLAT_RANGE_MARGIN: u64 = 10000;

/// A series is chronological when consecutive days never step back in
/// calendar order.
pub open spec fn spec_chronological(qs: Seq<PlotQuote>) -> bool {
    forall|i: int| 0 <= i < qs.len() - 1 ==> (#[trigger] qs[i]).0.spec_le(qs[i + 1].0)
}

/// The candle a day is drawn as.
pub open spec fn spec_candle(q: PlotQuote, filled: bool) -> Candle {
    Candle {
        date: q.0,
        open: q.1,
        high: q.2,
        low: q.3,
        close: q.4,
        bullish: q.4 >= q.1,
        filled,
        width: CANDLE_WIDTH,
    }
}

/// The lower bound of the price axis: the minimum low, pushed down by the
/// fixed margin (stopping at zero) where the range is degenerate.
pub open spec fn spec_y_low(min_low: u64, max_high: u64) -> u64 {
    if min_low == max_high {
        if min_low >= FLAT_RANGE_MARGIN {
            (min_low - FLAT_RANGE_MARGIN) as u64
        } else {
            0
        }
    } else {
        min_low
    }
}

/// The upper bound of the price axis: the maximum high, pushed up by the
/// fixed margin (saturating) where the range is degenerate.
pub open spec fn spec_y_high(min_low: u64, max_high: u64) -> u64 {
    if min_low == max_high {
        if max_high <= u64::MAX - FLAT_RANGE_MARGIN {
            (max_high + FLAT_RANGE_MARGIN) as u64
        } else {
            u64::MAX
        }
    } else {
        max_high
    }
}

fn check_chronological(qs: &Vec<PlotQuote>) -> (r: bool)
    ensures
        r == spec_chronological(qs@),
{
    let n = qs.len();
    if n == 0 {
        return true;
    }
    let mut i: usize = 0;
    let mut ok = true;
    while i < n - 1
        invariant
            1 <= n == qs@.len(),
            i <= n - 1,
            ok == (forall|j: int| 0 <= j < i ==> (#[trigger] qs@[j]).0.spec_le(qs@[j + 1].0)),
        decreases n - i,
    {
        let here = qs[i].0.le(&qs[i + 1].0);
        ok = ok && here;
        i += 1;
    }
    ok
}

fn candles_of(qs: &Vec<PlotQuote>, filled: bool) -> (r: Vec<Candle>)
    ensures
        r@ == Seq::new(qs@.len(), |i: int| spec_candle(qs@[i], filled)),
{
    let n = qs.len();
    let mut out: Vec<Candle> = Vec::new();
    let mut i: usize = 0;
    while i < n
        invariant
            i <= n,
            n == qs@.len(),
            out@ == Seq::new(i as nat, |j: int| spec_candle(qs@[j], filled)),
        decreases n - i,
    {
        let q = qs[i];
        out.push(
            Candle {
                date: q.0,
                open: q.1,
                high: q.2,
                low: q.3,
                close: q.4,
                bullish: q.4 >= q.1,
                filled,
                width: CANDLE_WIDTH,
            },
        );
        proof {
            assert(out@ =~= Seq::new((i + 1) as nat, |j: int| spec_candle(qs@[j], filled)));
        }
        i += 1;
    }
    out
}

/// Lays out the candlestick chart for the two series. The date axis runs
/// one day past each end of `[start_date, end_date]` so boundary candles
/// are not clipped; the price axis spans `[min_low_price, max_high_price]`
/// and is widened by a fixed margin when that range is a single point;
/// regular days draw as outlined candles and volatile days as filled ones,
/// both green when the close is at or above the open and red otherwise.
/// Fails with `RenderError` when either series is out of calendar order;
/// a backend failure is the drawing caller's to report.
pub fn plot_stock_quotes(
    regular_quotes: &Vec<PlotQuote>,
    volatile_quotes: &Vec<PlotQuote>,
    start_date: Date,
    end_date: Date,
    min_low_price: u64,
    max_high_price: u64,
    symbol: &str,
) -> (r: Result<ChartPlan, RenderError>)
    requires
        start_date.wf(),
        end_date.wf(),
        start_date != min_date(),
        end_date != max_date(),
    ensures
        r is Ok <==> spec_chronological(regular_quotes@) && spec_chronological(volatile_quotes@),
        r matches Err(e) ==> e == RenderError::NonChronological,
        r matches Ok(p) ==> {
            &&& p.caption@ == "Monitoring "@ + symbol@ + " (Past 6 Months)"@
            &&& p.x_start == spec_prev_day(start_date)
            &&& p.x_end == spec_next_day(end_date)
            &&& p.y_low == spec_y_low(min_low_price, max_high_price)
            &&& p.y_high == spec_y_high(min_low_price, max_high_price)
            &&& p.x_tick_count == 10
            &&& p.regular_candles@ == Seq::new(
                regular_quotes@.len(),
                |i: int| spec_candle(regular_quotes@[i], false),
            )
            &&& p.volatile_candles@ == Seq::new(
                volatile_quotes@.len(),
                |i: int| spec_candle(volatile_quotes@[i], true),
            )
            &&& p.legend_regular@ == "Empty Candlestick: Regular Quotes"@
            &&& p.legend_volatile@ == "Filled Candlestick: Volatile Quotes"@
        },
{
    if !check_chronological(regular_quotes) || !check_chronological(volatile_quotes) {
        return Err(RenderError::NonChronological);
    }
    let mut caption = String::new();
    caption.append("Monitoring ");
    caption.append(symbol);
    caption.append(" (Past 6 Months)");
    proof {
        assert(caption@ =~= "Monitoring "@ + symbol@ + " (Past 6 Months)"@);
    }
    let y_low = if min_low_price == max_high_price {
        if min_low_price >= FLAT_RANGE_MARGIN {
            min_low_price - FLAT_RANGE_MARGIN
        } else {
            0
        }
    } else {
        min_low_price
    };
    let y_high = if min_low_price == max_high_price {
        if max_high_price <= u64::MAX - FLAT_RANGE_MARGIN {
            max_high_price + FLAT_RANGE_MARGIN
        } else {
            u64::MAX
        }
    } else {
        max_high_price
    };
    Ok(
        ChartPlan {
            caption,
            x_start: start_date.prev_day(),
            x_end: end_date.next_day(),
            y_low,
            y_high,
            x_tick_count: 10,
            regular_candles: candles_of(regular_quotes, false),
            volatile_candles: candles_of(volatile_quotes, true),
            legend_regular: {
                let mut l = String::new();
                l.append("Empty Candlestick: Regular Quotes");
                l
            },
            legend_volatile: {
                let mut l = String::new();
                l.append("Filled Candlestick: Volatile Quotes");
                l
            },
        },
    )
}

/// The three-letter month name used in axis tick labels.
pub open spec fn spec_month_abbrev(m: int) -> Seq<char> {
    if m == 1 {
        "Jan"@
    } else if m == 2 {
        "Feb"@
    } else if m == 3 {
        "Mar"@
    } else if m == 4 {
        "Apr"@
    } else if m == 5 {
        "May"@
    } else if m == 6 {
        "Jun"@
    } else if m == 7 {
        "Jul"@
    } else if m == 8 {
        "Aug"@
    } else if m == 9 {
        "Sep"@
    } else if m == 10 {
        "Oct"@
    } else if m == 11 {
        "Nov"@
    } else {
        "Dec"@
    }
}

pub open spec fn spec_digit_char(n: int) -> char {
    ((48 + n % 10) as u8) as char
}

/// A tick label: short month name, a space, and the zero-padded day.
pub open spec fn spec_tick_label(d: Date) -> Seq<char> {
    spec_month_abbrev(d.month as int) + seq![
        ' ',
        spec_digit_char(d.day as int / 10),
        spec_digit_char(d.day as int),
    ]
}

fn digit_str(n: u64) -> (r: &'static str)
    requires
        n < 10,
    ensures
        r@ == seq![spec_digit_char(n as int)],
{
    proof {
        reveal_strlit("0");
        reveal_strlit("1");
        reveal_strlit("2");
        reveal_strlit("3");
        reveal_strlit("4");
        reveal_strlit("5");
        reveal_strlit("6");
        reveal_strlit("7");
        reveal_strlit("8");
        reveal_strlit("9");
    }
    if n == 0 {
        "0"
    } else if n == 1 {
        "1"
    } else if n == 2 {
        "2"
    } else if n == 3 {
        "3"
    } else if n == 4 {
        "4"
    } else if n == 5 {
        "5"
    } else if n == 6 {
        "6"
    } else if n == 7 {
        "7"
    } else if n == 8 {
        "8"
    } else {
        "9"
    }
}

fn month_abbrev(m: u8) -> (r: &'static str)
    requires
        1 <= m <= 12,
    ensures
        r@ == spec_month_abbrev(m as int),
{
    if m == 1 {
        "Jan"
    } else if m == 2 {
        "Feb"
    } else if m == 3 {
        "Mar"
    } else if m == 4 {
        "Apr"
    } else if m == 5 {
        "May"
    } else if m == 6 {
        "Jun"
    } else if m == 7 {
        "Jul"
    } else if m == 8 {
        "Aug"
    } else if m == 9 {
        "Sep"
    } else if m == 10 {
        "Oct"
    } else if m == 11 {
        "Nov"
    } else {
        "Dec"
    }
}

/// The label a date's axis tick carries (short month, space, two-digit
/// day).
pub fn date_label(d: &Date) -> (r: String)
    requires
        d.wf(),
    ensures
        r@ == spec_tick_label(*d),
{
    proof {
        reveal_strlit(" ");
    }
    let mut out = String::new();
    out.append(month_abbrev(d.month));
    out.append(" ");
    out.append(digit_str((d.day / 10) as u64));
    out.append(digit_str((d.day % 10) as u64));
    proof {
        assert(" "@ =~= seq![' ']);
        assert(out@ =~= spec_tick_label(*d));
    }
    out
}

/// The chart-frame data another charting path consumes: the date of each
/// day and its prices as (open, close, low, high) rows, in series order.
pub struct ChartData {
    pub dates: Vec<Date>,
    pub ohlc: Vec<(u64, u64, u64, u64)>,
}

/// Extracts the axis dates and the (open, close, low, high) rows of a
/// series. The price scale is the caller's concern: the chart scales its
/// own axis, so the minimum price is not consumed here.
pub fn chart_from_analysis(quotes: &Vec<DailyQuote>, min_price: &u64) -> (r: ChartData)
    ensures
        r.dates@ == Seq::new(quotes@.len(), |i: int| quotes@[i].date),
        r.ohlc@ == Seq::new(
            quotes@.len(),
            |i: int| (quotes@[i].open, quotes@[i].close, quotes@[i].low, quotes@[i].high),
        ),
{
    let n = quotes.len();
    let mut dates: Vec<Date> = Vec::new();
    let mut ohlc: Vec<(u64, u64, u64, u64)> = Vec::new();
    let mut i: usize = 0;
    while i < n
        invariant
            i <= n,
            n == quotes@.len(),
            dates@ == Seq::new(i as nat, |j: int| quotes@[j].date),
            ohlc@ == Seq::new(
                i as nat,
                |j: int| (quotes@[j].open, quotes@[j].close, quotes@[j].low, quotes@[j].high),
            ),
        decreases n - i,
    {
        let q = &quotes[i];
        dates.push(q.date);
        ohlc.push((q.open, q.close, q.low, q.high));
        proof {
            assert(dates@ =~= Seq::new((i + 1) as nat, |j: int| quotes@[j].date));
            assert(ohlc@ =~= Seq::new(
                (i + 1) as nat,
                |j: int| (quotes@[j].open, quotes@[j].close, quotes@[j].low, quotes@[j].high),
            ));
        }
        i += 1;
    }
    let _ = min_price;
    ChartData { dates, ohlc }
}

impl StockAnalysis {
    /// The regular series as (date, open, high, low, close) rows for the
    /// renderer.
    pub fn get_regular_quotes_for_plot(&self) -> (r: Vec<PlotQuote>)
        ensures
            r@ == Seq::new(
                self.regular_quotes@.len(),
                |i: int| plot_quote_of(self.regular_quotes@[i]),
            ),
    {
        quotes_for_plot(&self.regular_quotes)
    }

    /// The volatile series as (date, open, high, low, close) rows for the
    /// renderer.
    pub fn get_volatile_quotes_for_plot(&self) -> (r: Vec<PlotQuote>)
        ensures
            r@ == Seq::new(
                self.volatile_quotes@.len(),
                |i: int| plot_quote_of(self.volatile_quotes@[i]),
            ),
    {
        quotes_for_plot(&self.volatile_quotes)
    }
}

/// The renderer row a day provides.
pub open spec fn plot_quote_of(q: DailyQuote) -> PlotQuote {
    (q.date, q.open, q.high, q.low, q.close)
}

fn quotes_for_plot(qs: &Vec<DailyQuote>) -> (r: Vec<PlotQuote>)
    ensures
        r@ == Seq::new(qs@.len(), |i: int| plot_quote_of(qs@[i])),
{
    let n = qs.len();
    let mut out: Vec<PlotQuote> = Vec::new();
    let mut i: usize = 0;
    while i < n
        invariant
            i <= n,
            n == qs@.len(),
            out@ == Seq::new(i as nat, |j: int| plot_quote_of(qs@[j])),
        decreases n - i,
    {
        let q = &qs[i];
        out.push((q.date, q.open, q.high, q.low, q.close));
        proof {
            assert(out@ =~= Seq::new((i + 1) as nat, |j: int| plot_quote_of(qs@[j])));
        }
        i += 1;
    }
    out
}

} // verus!
