//! The two per-quote judgements: timestamp-to-date normalization and the
//! intraday volatility rule.

use vstd::prelude::*;
use chrono::Datelike;
use crate::date::{civil_wf, Date};
use crate::error::AnalysisError;

verus! {

/// The calendar date (year, month, day, UTC) that chrono assigns to an
/// epoch timestamp in seconds, or `None` where the timestamp is out of
/// chrono's range. The value depends on the timestamp alone.
pub uninterp spec fn civil_of_timestamp(ts: int) -> Option<(i32, u32, u32)>;

/// Relies on `chrono::DateTime::<Utc>::from_timestamp` and the `Datelike`
/// accessors `year`/`month`/`day`: the conversion is UTC-fixed, so the
/// result is a function of the timestamp alone; a returned triple is a
/// real calendar date (chrono's `NaiveDate` holds only valid dates); the
/// documentation owes `Some` for any in-range number of seconds, which
/// covers at least 1970-01-01 through 9999-12-31.
#[verifier::external_body]
fn timestamp_civil(ts: i64) -> (r: Option<(i32, u32, u32)>)
    ensures
        r == civil_of_timestamp(ts as int),
        r matches Some(c) ==> civil_wf(c.0 as int, c.1 as int, c.2 as int),
        r is None ==> !(0 <= ts <= 253402300799),
        r matches Some(c) ==> (0 <= ts <= 253402300799 ==> 1970 <= c.0 <= 9999),
{
    match chrono::DateTime::from_timestamp(ts, 0) {
        None => None,
        Some(dt) => {
            let d = dt.date_naive();
            Some((d.year(), d.month(), d.day()))
        },
    }
}

/// The date a timestamp normalizes to: chrono's conversion, restricted to
/// the four-digit years the wire format carries.
pub open spec fn spec_timestamp_date(ts: int) -> Option<Date> {
    match civil_of_timestamp(ts) {
        None => None,
        Some(c) => if 1 <= c.0 <= 9999 {
            Some(Date { year: c.0, month: c.1 as u8, day: c.2 as u8 })
        } else {
            None
        },
    }
}

/// Converts an epoch timestamp (seconds) to its calendar date. Fails with
/// `InvalidTimestamp` where the timestamp cannot be converted or falls
/// outside the years the report can carry; never substitutes a default.
pub fn timestamp_to_local_date(timestamp: i64) -> (r: Result<Date, AnalysisError>)
    ensures
        r == match spec_timestamp_date(timestamp as int) {
            Some(d) => Ok::<Date, AnalysisError>(d),
            None => Err::<Date, AnalysisError>(AnalysisError::InvalidTimestamp),
        },
        r matches Ok(d) ==> d.wf(),
        0 <= timestamp <= 253402300799 ==> r is Ok,
{
    match timestamp_civil(timestamp) {
        None => Err(AnalysisError::InvalidTimestamp),
        Some(c) => {
            if 1 <= c.0 && c.0 <= 9999 {
                Ok(Date { year: c.0, month: c.1 as u8, day: c.2 as u8 })
            } else {
                Err(AnalysisError::InvalidTimestamp)
            }
        },
    }
}

/// The fixed 2% intraday-range rule: a day is volatile exactly when
/// `(high - low) / low > 2 / 100`, stated over the fixed-point prices
/// (the ratio is scale-invariant).
pub open spec fn spec_is_volatile(high: int, low: int) -> bool {
    100 * (high - low) > 2 * low
}

/// Classifies one day by the 2% rule. `low` must be strictly positive;
/// the caller rejects a zero low as `DegenerateQuote` before asking.
pub fn determine_volatility(high: u64, low: u64) -> (r: bool)
    requires
        low >= 1,
    ensures
        r == spec_is_volatile(high as int, low as int),
{
    if high <= low {
        false
    } else {
        100u128 * ((high - low) as u128) > 2u128 * (low as u128)
    }
}

} // verus!
