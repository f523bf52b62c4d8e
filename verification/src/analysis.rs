//! The analysis pipeline: normalize every provider quote, classify it by
//! the 2% rule, track running price extrema, and partition the series into
//! regular and volatile days. The pipeline is all-or-nothing: any failing
//! quote fails the whole request.

use vstd::prelude::*;
use vstd::multiset::Multiset;
use crate::date::Date;
use crate::error::AnalysisError;
use crate::quote::{DailyQuote, RawQuote};
use crate::utils::{
    determine_volatility, spec_is_volatile, spec_timestamp_date, timestamp_to_local_date,
};

verus! {

/// The mathematical shape of a report: the extrema, the date span, and
/// the two partitioned series.
#[verifier::ext_equal]
pub struct AnalysisView {
    pub min_close_price: u64,
    pub max_close_price: u64,
    pub min_close_date: Date,
    pub max_close_date: Date,
    pub start_date: Date,
    pub end_date: Date,
    pub min_low_price: u64,
    pub max_high_price: u64,
    pub regular_quotes: Seq<DailyQuote>,
    pub volatile_quotes: Seq<DailyQuote>,
}

/// A complete analysis of one quote series. Constructed once per request
/// and read-only thereafter.
#[derive(Debug, PartialEq)]
pub struct StockAnalysis {
    pub min_close_price: u64,
    pub max_close_price: u64,
    pub min_close_date: Date,
    pub max_close_date: Date,
    pub start_date: Date,
    pub end_date: Date,
    pub min_low_price: u64,
    pub max_high_price: u64,
    pub regular_quotes: Vec<DailyQuote>,
    pub volatile_quotes: Vec<DailyQuote>,
}

impl View for StockAnalysis {
    type V = AnalysisView;

    open spec fn view(&self) -> AnalysisView {
        AnalysisView {
            min_close_price: self.min_close_price,
            max_close_price: self.max_close_price,
            min_close_date: self.min_close_date,
            max_close_date: self.max_close_date,
            start_date: self.start_date,
            end_date: self.end_date,
            min_low_price: self.min_low_price,
            max_high_price: self.max_high_price,
            regular_quotes: self.regular_quotes@,
            volatile_quotes: self.volatile_quotes@,
        }
    }
}

impl StockAnalysis {
    /// Every date the report carries is a real calendar date within the
    /// span the wire format can hold.
    pub open spec fn dates_wf(self) -> bool {
        &&& self.start_date.wf()
        &&& self.end_date.wf()
        &&& self.min_close_date.wf()
        &&& self.max_close_date.wf()
        &&& forall|i: int|
            0 <= i < self.regular_quotes@.len() ==> (#[trigger] self.regular_quotes@[i]).date.wf()
        &&& forall|i: int|
            0 <= i < self.volatile_quotes@.len() ==> (#[trigger] self.volatile_quotes@[i]).date.wf()
    }
}

/// Why one quote fails, or `None` where it is acceptable: its timestamp
/// must convert to a calendar date, and its low price must be nonzero.
pub open spec fn spec_quote_error(q: RawQuote) -> Option<AnalysisError> {
    if spec_timestamp_date(q.timestamp as int) is None {
        Some(AnalysisError::InvalidTimestamp)
    } else if q.low == 0 {
        Some(AnalysisError::DegenerateQuote)
    } else {
        None
    }
}

/// The error of the first failing quote at or after position `i`.
pub open spec fn spec_first_error_from(qs: Seq<RawQuote>, i: int) -> Option<AnalysisError>
    decreases qs.len() - i,
{
    if i < 0 || i >= qs.len() {
        None
    } else if spec_quote_error(qs[i]) is Some {
        spec_quote_error(qs[i])
    } else {
        spec_first_error_from(qs, i + 1)
    }
}

/// The error of the first failing quote of the series, in original order.
pub open spec fn spec_first_error(qs: Seq<RawQuote>) -> Option<AnalysisError> {
    spec_first_error_from(qs, 0)
}

/// The daily record a raw quote normalizes and classifies to
/// (meaningful where `spec_quote_error(q)` is `None`).
pub open spec fn spec_daily_quote(q: RawQuote) -> DailyQuote {
    DailyQuote {
        date: spec_timestamp_date(q.timestamp as int).unwrap(),
        open: q.open,
        high: q.high,
        low: q.low,
        volume: q.volume,
        close: q.close,
        adjclose: q.adjclose,
        is_volatile: spec_is_volatile(q.high as int, q.low as int),
    }
}

/// The whole series, normalized and classified, in original order.
pub open spec fn spec_daily_seq(qs: Seq<RawQuote>) -> Seq<DailyQuote> {
    Seq::new(qs.len(), |i: int| spec_daily_quote(qs[i]))
}

pub open spec fn is_volatile_day(d: DailyQuote) -> bool {
    d.is_volatile
}

pub open spec fn is_regular_day(d: DailyQuote) -> bool {
    !d.is_volatile
}

// The running extrema over a non-empty day sequence, folded in original
// order. A tie keeps the earlier value, so each extremum's date is the
// earliest date on which it was seen.
pub open spec fn spec_min_close(ds: Seq<DailyQuote>) -> u64
    decreases ds.len(),
{
    if ds.len() <= 1 {
        ds[0].close
    } else if ds.last().close < spec_min_close(ds.drop_last()) {
        ds.last().close
    } else {
        spec_min_close(ds.drop_last())
    }
}

pub open spec fn spec_min_close_date(ds: Seq<DailyQuote>) -> Date
    decreases ds.len(),
{
    if ds.len() <= 1 {
        ds[0].date
    } else if ds.last().close < spec_min_close(ds.drop_last()) {
        ds.last().date
    } else {
        spec_min_close_date(ds.drop_last())
    }
}

pub open spec fn spec_max_close(ds: Seq<DailyQuote>) -> u64
    decreases ds.len(),
{
    if ds.len() <= 1 {
        ds[0].close
    } else if ds.last().close > spec_max_close(ds.drop_last()) {
        ds.last().close
    } else {
        spec_max_close(ds.drop_last())
    }
}

pub open spec fn spec_max_close_date(ds: Seq<DailyQuote>) -> Date
    decreases ds.len(),
{
    if ds.len() <= 1 {
        ds[0].date
    } else if ds.last().close > spec_max_close(ds.drop_last()) {
        ds.last().date
    } else {
        spec_max_close_date(ds.drop_last())
    }
}

pub open spec fn spec_min_low(ds: Seq<DailyQuote>) -> u64
    decreases ds.len(),
{
    if ds.len() <= 1 {
        ds[0].low
    } else if ds.last().low < spec_min_low(ds.drop_last()) {
        ds.last().low
    } else {
        spec_min_low(ds.drop_last())
    }
}

pub open spec fn spec_max_high(ds: Seq<DailyQuote>) -> u64
    decreases ds.len(),
{
    if ds.len() <= 1 {
        ds[0].high
    } else if ds.last().high > spec_max_high(ds.drop_last()) {
        ds.last().high
    } else {
        spec_max_high(ds.drop_last())
    }
}

/// What an analysis of a series returns: `EmptySeries` on no quotes, the
/// first failing quote's error otherwise, else the full report.
pub open spec fn spec_analyze(qs: Seq<RawQuote>) -> Result<AnalysisView, AnalysisError> {
    if qs.len() == 0 {
        Err(AnalysisError::EmptySeries)
    } else if spec_first_error(qs) is Some {
        Err(spec_first_error(qs).unwrap())
    } else {
        let ds = spec_daily_seq(qs);
        Ok(
            AnalysisView {
                min_close_price: spec_min_close(ds),
                max_close_price: spec_max_close(ds),
                min_close_date: spec_min_close_date(ds),
                max_close_date: spec_max_close_date(ds),
                start_date: ds[0].date,
                end_date: ds.last().date,
                min_low_price: spec_min_low(ds),
                max_high_price: spec_max_high(ds),
                regular_quotes: ds.filter(|d: DailyQuote| is_regular_day(d)),
                volatile_quotes: ds.filter(|d: DailyQuote| is_volatile_day(d)),
            },
        )
    }
}

/// Folds one more day into the running extrema: each bound is replaced
/// only when strictly passed, so ties keep the earliest-seen date. All
/// other report fields are left alone.
pub fn update_min_max_prices(analysis: &mut StockAnalysis, quote: &DailyQuote, date: Date)
    ensures
        final(analysis).min_low_price == if quote.low < old(analysis).min_low_price {
            quote.low
        } else {
            old(analysis).min_low_price
        },
        final(analysis).max_high_price == if quote.high > old(analysis).max_high_price {
            quote.high
        } else {
            old(analysis).max_high_price
        },
        final(analysis).min_close_price == if quote.close < old(analysis).min_close_price {
            quote.close
        } else {
            old(analysis).min_close_price
        },
        final(analysis).min_close_date == if quote.close < old(analysis).min_close_price {
            date
        } else {
            old(analysis).min_close_date
        },
        final(analysis).max_close_price == if quote.close > old(analysis).max_close_price {
            quote.close
        } else {
            old(analysis).max_close_price
        },
        final(analysis).max_close_date == if quote.close > old(analysis).max_close_price {
            date
        } else {
            old(analysis).max_close_date
        },
        final(analysis).start_date == old(analysis).start_date,
        final(analysis).end_date == old(analysis).end_date,
        final(analysis).regular_quotes@ == old(analysis).regular_quotes@,
        final(analysis).volatile_quotes@ == old(analysis).volatile_quotes@,
{
    if quote.low < analysis.min_low_price {
        analysis.min_low_price = quote.low;
    }
    if quote.high > analysis.max_high_price {
        analysis.max_high_price = quote.high;
    }
    if quote.close < analysis.min_close_price {
        analysis.min_close_price = quote.close;
        analysis.min_close_date = date;
    }
    if quote.close > analysis.max_close_price {
        analysis.max_close_price = quote.close;
        analysis.max_close_date = date;
    }
}

/// Unfolds each extremum over a pushed day: folding `d` into the extrema
/// of `ds` replaces a bound exactly when `d` strictly passes it.
proof fn lemma_extrema_push(ds: Seq<DailyQuote>, d: DailyQuote)
    requires
        ds.len() >= 1,
    ensures
        spec_min_close(ds.push(d)) == if d.close < spec_min_close(ds) {
            d.close
        } else {
            spec_min_close(ds)
        },
        spec_min_close_date(ds.push(d)) == if d.close < spec_min_close(ds) {
            d.date
        } else {
            spec_min_close_date(ds)
        },
        spec_max_close(ds.push(d)) == if d.close > spec_max_close(ds) {
            d.close
        } else {
            spec_max_close(ds)
        },
        spec_max_close_date(ds.push(d)) == if d.close > spec_max_close(ds) {
            d.date
        } else {
            spec_max_close_date(ds)
        },
        spec_min_low(ds.push(d)) == if d.low < spec_min_low(ds) {
            d.low
        } else {
            spec_min_low(ds)
        },
        spec_max_high(ds.push(d)) == if d.high > spec_max_high(ds) {
            d.high
        } else {
            spec_max_high(ds)
        },
{
    let s2 = ds.push(d);
    assert(s2.drop_last() =~= ds);
    assert(s2.last() == d);
}

/// Splitting off one more day: the day lands at the end of exactly one of
/// the two partitions, and the other is unchanged.
proof fn lemma_partition_push(ds: Seq<DailyQuote>, d: DailyQuote)
    ensures
        ds.push(d).filter(|x: DailyQuote| is_regular_day(x)) == if is_regular_day(d) {
            ds.filter(|x: DailyQuote| is_regular_day(x)).push(d)
        } else {
            ds.filter(|x: DailyQuote| is_regular_day(x))
        },
        ds.push(d).filter(|x: DailyQuote| is_volatile_day(x)) == if is_volatile_day(d) {
            ds.filter(|x: DailyQuote| is_volatile_day(x)).push(d)
        } else {
            ds.filter(|x: DailyQuote| is_volatile_day(x))
        },
{
    ds.lemma_filter_push(d, |x: DailyQuote| is_regular_day(x));
    ds.lemma_filter_push(d, |x: DailyQuote| is_volatile_day(x));
}

/// The two partitions of the empty day sequence are empty.
proof fn lemma_partition_empty()
    ensures
        Seq::<DailyQuote>::empty().filter(|x: DailyQuote| is_regular_day(x))
            == Seq::<DailyQuote>::empty(),
        Seq::<DailyQuote>::empty().filter(|x: DailyQuote| is_volatile_day(x))
            == Seq::<DailyQuote>::empty(),
{
    reveal(Seq::filter);
}

/// Runs the whole pipeline over a quote series, in original order:
/// normalize each quote to a calendar day, classify it by the 2% rule,
/// fold the extrema, and partition the days into the regular and volatile
/// series (a stable partition; both keep source order). Fails with
/// `EmptySeries` on no quotes and otherwise with the first failing
/// quote's error; no partial report is ever returned.
pub fn analyze_quotes(quotes: &Vec<RawQuote>) -> (r: Result<StockAnalysis, AnalysisError>)
    ensures
        r matches Ok(a) ==> spec_analyze(quotes@) == Ok::<AnalysisView, AnalysisError>(a@)
            && a.dates_wf(),
        r matches Err(e) ==> spec_analyze(quotes@) == Err::<AnalysisView, AnalysisError>(e),
{
    broadcast use vstd::seq_lib::group_filter_ensures;

    let n = quotes.len();
    if n == 0 {
        return Err(AnalysisError::EmptySeries);
    }
    let q0 = quotes[0];
    let date0 = match timestamp_to_local_date(q0.timestamp) {
        Ok(d) => d,
        Err(e) => {
            return Err(e);
        },
    };
    if q0.low == 0 {
        return Err(AnalysisError::DegenerateQuote);
    }
    let vol0 = determine_volatility(q0.high, q0.low);
    let dq0 = DailyQuote {
        date: date0,
        open: q0.open,
        high: q0.high,
        low: q0.low,
        volume: q0.volume,
        close: q0.close,
        adjclose: q0.adjclose,
        is_volatile: vol0,
    };
    let mut analysis = StockAnalysis {
        min_close_price: q0.close,
        max_close_price: q0.close,
        min_close_date: date0,
        max_close_date: date0,
        start_date: date0,
        end_date: date0,
        min_low_price: q0.low,
        max_high_price: q0.high,
        regular_quotes: Vec::new(),
        volatile_quotes: Vec::new(),
    };
    if vol0 {
        analysis.volatile_quotes.push(dq0);
    } else {
        analysis.regular_quotes.push(dq0);
    }
    proof {
        assert(dq0 == spec_daily_quote(quotes@[0]));
        assert(spec_daily_seq(quotes@.take(1)) =~= Seq::<DailyQuote>::empty().push(dq0));
        lemma_partition_empty();
        lemma_partition_push(Seq::<DailyQuote>::empty(), dq0);
        assert(analysis.regular_quotes@ == spec_daily_seq(quotes@.take(1)).filter(
            |d: DailyQuote| is_regular_day(d),
        ));
        assert(analysis.volatile_quotes@ == spec_daily_seq(quotes@.take(1)).filter(
            |d: DailyQuote| is_volatile_day(d),
        ));
    }
    let mut i: usize = 1;
    while i < n
        invariant
            1 <= i <= n,
            n == quotes@.len(),
            spec_first_error_from(quotes@, 0) == spec_first_error_from(quotes@, i as int),
            analysis.min_close_price == spec_min_close(spec_daily_seq(quotes@.take(i as int))),
            analysis.max_close_price == spec_max_close(spec_daily_seq(quotes@.take(i as int))),
            analysis.min_close_date == spec_min_close_date(spec_daily_seq(quotes@.take(i as int))),
            analysis.max_close_date == spec_max_close_date(spec_daily_seq(quotes@.take(i as int))),
            analysis.min_low_price == spec_min_low(spec_daily_seq(quotes@.take(i as int))),
            analysis.max_high_price == spec_max_high(spec_daily_seq(quotes@.take(i as int))),
            analysis.start_date == spec_daily_seq(quotes@.take(i as int))[0].date,
            analysis.end_date == spec_daily_seq(quotes@.take(i as int)).last().date,
            analysis.regular_quotes@ == spec_daily_seq(quotes@.take(i as int)).filter(
                |d: DailyQuote| is_regular_day(d),
            ),
            analysis.volatile_quotes@ == spec_daily_seq(quotes@.take(i as int)).filter(
                |d: DailyQuote| is_volatile_day(d),
            ),
            analysis.start_date.wf(),
            analysis.end_date.wf(),
            analysis.min_close_date.wf(),
            analysis.max_close_date.wf(),
            forall|j: int|
                0 <= j < analysis.regular_quotes@.len() ==> (#[trigger] analysis.regular_quotes@[j]).date.wf(),
            forall|j: int|
                0 <= j < analysis.volatile_quotes@.len() ==> (#[trigger] analysis.volatile_quotes@[j]).date.wf(),
        decreases n - i,
    {
        let q = quotes[i];
        let ghost pre = spec_daily_seq(quotes@.take(i as int));
        let date = match timestamp_to_local_date(q.timestamp) {
            Ok(d) => d,
            Err(e) => {
                proof {
                    assert(spec_quote_error(quotes@[i as int]) == Some(
                        AnalysisError::InvalidTimestamp,
                    ));
                }
                return Err(e);
            },
        };
        if q.low == 0 {
            proof {
                assert(spec_quote_error(quotes@[i as int]) == Some(
                    AnalysisError::DegenerateQuote,
                ));
            }
            return Err(AnalysisError::DegenerateQuote);
        }
        let vol = determine_volatility(q.high, q.low);
        let dq = DailyQuote {
            date,
            open: q.open,
            high: q.high,
            low: q.low,
            volume: q.volume,
            close: q.close,
            adjclose: q.adjclose,
            is_volatile: vol,
        };
        proof {
            assert(dq == spec_daily_quote(quotes@[i as int]));
            assert(spec_daily_seq(quotes@.take(i + 1 as int)) =~= pre.push(dq));
            lemma_extrema_push(pre, dq);
            lemma_partition_push(pre, dq);
        }
        if vol {
            analysis.volatile_quotes.push(dq);
        } else {
            analysis.regular_quotes.push(dq);
        }
        update_min_max_prices(&mut analysis, &dq, date);
        analysis.end_date = date;
        i += 1;
    }
    proof {
        assert(quotes@.take(n as int) =~= quotes@);
        assert(spec_first_error_from(quotes@, n as int) is None);
        assert(spec_analyze(quotes@) is Ok);
        let v = spec_analyze(quotes@)->Ok_0;
        assert(v =~= analysis@);
        assert(spec_analyze(quotes@) == Ok::<AnalysisView, AnalysisError>(analysis@));
        assert(analysis.dates_wf());
    }
    Ok(analysis)
}

/// Law: the volatility split is a stable, lossless partition. The two
/// series' lengths sum to the whole series' length, and merging them back
/// by original position reproduces the series exactly: each partition is
/// a filter of the series (so keeps source order), and together they hold
/// the series' days with their exact multiplicities.
pub proof fn lemma_partition_lossless(ds: Seq<DailyQuote>)
    ensures
        ds.filter(|d: DailyQuote| is_regular_day(d)).len() + ds.filter(
            |d: DailyQuote| is_volatile_day(d),
        ).len() == ds.len(),
        ds.filter(|d: DailyQuote| is_regular_day(d)).to_multiset().add(
            ds.filter(|d: DailyQuote| is_volatile_day(d)).to_multiset(),
        ) =~= ds.to_multiset(),
    decreases ds.len(),
{
    broadcast use vstd::seq_lib::group_to_multiset_ensures;

    if ds.len() == 0 {
        lemma_partition_empty();
        assert(Seq::<DailyQuote>::empty().to_multiset() =~= Multiset::<DailyQuote>::empty());
    } else {
        let rest = ds.drop_last();
        let d = ds.last();
        lemma_partition_lossless(rest);
        lemma_partition_push(rest, d);
        assert(ds =~= rest.push(d));
        let reg = rest.filter(|x: DailyQuote| is_regular_day(x));
        let vol = rest.filter(|x: DailyQuote| is_volatile_day(x));
        if is_regular_day(d) {
            assert(reg.push(d).to_multiset().add(vol.to_multiset()) =~= reg.to_multiset().add(
                vol.to_multiset(),
            ).insert(d));
        } else {
            assert(reg.to_multiset().add(vol.push(d).to_multiset()) =~= reg.to_multiset().add(
                vol.to_multiset(),
            ).insert(d));
        }
    }
}

/// Law: the extrema bound every day of the series. Each day's close lies
/// between the minimum and maximum close, its low is no less than the
/// low-price bound, and its high no more than the high-price bound.
pub proof fn lemma_extrema_bound(ds: Seq<DailyQuote>, i: int)
    requires
        0 <= i < ds.len(),
    ensures
        spec_min_close(ds) <= ds[i].close <= spec_max_close(ds),
        spec_min_low(ds) <= ds[i].low,
        spec_max_high(ds) >= ds[i].high,
    decreases ds.len(),
{
    if ds.len() > 1 && i < ds.len() - 1 {
        lemma_extrema_bound(ds.drop_last(), i);
    }
}

/// Law: each close extremum is attained on the date the report names for
/// it, and a tie keeps the earliest date: the named date belongs to the
/// first day that reaches the extremum.
pub proof fn lemma_extrema_attained(ds: Seq<DailyQuote>)
    requires
        ds.len() >= 1,
    ensures
        exists|i: int|
            0 <= i < ds.len() && (#[trigger] ds[i]).close == spec_min_close(ds) && ds[i].date
                == spec_min_close_date(ds) && (forall|j: int|
                0 <= j < i ==> (#[trigger] ds[j]).close > spec_min_close(ds)),
        exists|i: int|
            0 <= i < ds.len() && (#[trigger] ds[i]).close == spec_max_close(ds) && ds[i].date
                == spec_max_close_date(ds) && (forall|j: int|
                0 <= j < i ==> (#[trigger] ds[j]).close < spec_max_close(ds)),
    decreases ds.len(),
{
    if ds.len() == 1 {
        assert(ds[0].close == spec_min_close(ds) && ds[0].date == spec_min_close_date(ds));
        assert(ds[0].close == spec_max_close(ds) && ds[0].date == spec_max_close_date(ds));
    } else {
        let rest = ds.drop_last();
        lemma_extrema_attained(rest);
        let last = ds.len() - 1;
        if ds.last().close < spec_min_close(rest) {
            assert forall|j: int| 0 <= j < last implies (#[trigger] ds[j]).close > spec_min_close(
                ds,
            ) by {
                lemma_extrema_bound(rest, j);
            }
            assert(ds[last].close == spec_min_close(ds) && ds[last].date == spec_min_close_date(
                ds,
            ));
        } else {
            let i = choose|i: int|
                0 <= i < rest.len() && (#[trigger] rest[i]).close == spec_min_close(rest)
                    && rest[i].date == spec_min_close_date(rest) && (forall|j: int|
                    0 <= j < i ==> (#[trigger] rest[j]).close > spec_min_close(rest));
            assert(ds[i] == rest[i]);
            assert forall|j: int| 0 <= j < i implies (#[trigger] ds[j]).close > spec_min_close(
                ds,
            ) by {
                assert(ds[j] == rest[j]);
            }
            assert(ds[i].close == spec_min_close(ds) && ds[i].date == spec_min_close_date(ds));
        }
        if ds.last().close > spec_max_close(rest) {
            assert forall|j: int| 0 <= j < last implies (#[trigger] ds[j]).close < spec_max_close(
                ds,
            ) by {
                lemma_extrema_bound(rest, j);
            }
            assert(ds[last].close == spec_max_close(ds) && ds[last].date == spec_max_close_date(
                ds,
            ));
        } else {
            let i = choose|i: int|
                0 <= i < rest.len() && (#[trigger] rest[i]).close == spec_max_close(rest)
                    && rest[i].date == spec_max_close_date(rest) && (forall|j: int|
                    0 <= j < i ==> (#[trigger] rest[j]).close < spec_max_close(rest));
            assert(ds[i] == rest[i]);
            assert forall|j: int| 0 <= j < i implies (#[trigger] ds[j]).close < spec_max_close(
                ds,
            ) by {
                assert(ds[j] == rest[j]);
            }
            assert(ds[i].close == spec_max_close(ds) && ds[i].date == spec_max_close_date(ds));
        }
    }
}

/// Law: every report the pipeline returns bounds every input day's
/// prices. For each position of the input series, the normalized day's
/// close lies between `min_close_price` and `max_close_price`, its low is
/// at least `min_low_price`, and its high at most `max_high_price`; in
/// particular `min_close_price <= max_close_price`.
pub proof fn lemma_report_bounds(qs: Seq<RawQuote>, i: int)
    requires
        spec_analyze(qs) is Ok,
        0 <= i < qs.len(),
    ensures
        spec_analyze(qs)->Ok_0.min_close_price <= spec_daily_quote(qs[i]).close <= spec_analyze(
            qs,
        )->Ok_0.max_close_price,
        spec_analyze(qs)->Ok_0.min_low_price <= spec_daily_quote(qs[i]).low,
        spec_analyze(qs)->Ok_0.max_high_price >= spec_daily_quote(qs[i]).high,
        spec_analyze(qs)->Ok_0.min_close_price <= spec_analyze(qs)->Ok_0.max_close_price,
{
    let ds = spec_daily_seq(qs);
    lemma_extrema_bound(ds, i);
}

/// Law: every report the pipeline returns is a stable, lossless split of
/// the input series, and its date span is the series' first and last
/// dates.
pub proof fn lemma_report_partition(qs: Seq<RawQuote>)
    requires
        spec_analyze(qs) is Ok,
    ensures
        spec_analyze(qs)->Ok_0.regular_quotes.len() + spec_analyze(qs)->Ok_0.volatile_quotes.len()
            == qs.len(),
        spec_analyze(qs)->Ok_0.regular_quotes.to_multiset().add(
            spec_analyze(qs)->Ok_0.volatile_quotes.to_multiset(),
        ) == spec_daily_seq(qs).to_multiset(),
        spec_analyze(qs)->Ok_0.start_date == spec_daily_quote(qs[0]).date,
        spec_analyze(qs)->Ok_0.end_date == spec_daily_quote(qs[qs.len() - 1]).date,
{
    lemma_partition_lossless(spec_daily_seq(qs));
}

/// Law: the partitions carry their classification. Every day of the
/// regular series has `is_volatile` false and every day of the volatile
/// series has it true, and in both series the flag is exactly the 2%
/// rule applied to the day's own high and low.
pub proof fn lemma_partition_flags(qs: Seq<RawQuote>)
    requires
        spec_analyze(qs) is Ok,
    ensures
        forall|i: int|
            0 <= i < spec_analyze(qs)->Ok_0.regular_quotes.len() ==> !(
            #[trigger] spec_analyze(qs)->Ok_0.regular_quotes[i]).is_volatile,
        forall|i: int|
            0 <= i < spec_analyze(qs)->Ok_0.volatile_quotes.len() ==> (
            #[trigger] spec_analyze(qs)->Ok_0.volatile_quotes[i]).is_volatile,
        forall|i: int|
            0 <= i < spec_analyze(qs)->Ok_0.regular_quotes.len() ==> (
            #[trigger] spec_analyze(qs)->Ok_0.regular_quotes[i]).is_volatile == spec_is_volatile(
                spec_analyze(qs)->Ok_0.regular_quotes[i].high as int,
                spec_analyze(qs)->Ok_0.regular_quotes[i].low as int,
            ),
        forall|i: int|
            0 <= i < spec_analyze(qs)->Ok_0.volatile_quotes.len() ==> (
            #[trigger] spec_analyze(qs)->Ok_0.volatile_quotes[i]).is_volatile == spec_is_volatile(
                spec_analyze(qs)->Ok_0.volatile_quotes[i].high as int,
                spec_analyze(qs)->Ok_0.volatile_quotes[i].low as int,
            ),
{
    broadcast use vstd::seq_lib::group_filter_ensures;
    broadcast use Seq::lemma_filter_contains_rev;

    let ds = spec_daily_seq(qs);
    let reg = ds.filter(|d: DailyQuote| is_regular_day(d));
    let vol = ds.filter(|d: DailyQuote| is_volatile_day(d));
    assert forall|i: int| 0 <= i < reg.len() implies !(#[trigger] reg[i]).is_volatile && reg[i].is_volatile
        == spec_is_volatile(reg[i].high as int, reg[i].low as int) by {
        assert(reg.contains(reg[i]));
        assert(ds.contains(reg[i]));
        let k = choose|k: int| 0 <= k < ds.len() && ds[k] == reg[i];
        assert(ds[k] == spec_daily_quote(qs[k]));
    }
    assert forall|i: int| 0 <= i < vol.len() implies (#[trigger] vol[i]).is_volatile && vol[i].is_volatile
        == spec_is_volatile(vol[i].high as int, vol[i].low as int) by {
        assert(vol.contains(vol[i]));
        assert(ds.contains(vol[i]));
        let k = choose|k: int| 0 <= k < ds.len() && ds[k] == vol[i];
        assert(ds[k] == spec_daily_quote(qs[k]));
    }
}

/// Holds the symbol whose quotes a request analyzes.
pub struct StockMonitor {
    pub symbol: String,
}

impl StockMonitor {
    /// A monitor for one ticker symbol.
    pub fn new(symbol: String) -> (r: Self)
        ensures
            r.symbol@ == symbol@,
    {
        StockMonitor { symbol }
    }
}

/// The last symbol a caller asked about, where a transport layer chooses
/// to remember one.
pub struct AppState {
    pub user_input: Option<String>,
}

} // verus!
