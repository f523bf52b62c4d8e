//! Quote records. Prices are fixed-point: a `u64` counts ten-thousandths
//! of the quote currency (`PRICE_SCALE` units per whole), so comparisons
//! and the threshold rule are exact.

use vstd::prelude::*;
use crate::date::Date;

verus! {

/// Fixed-point units per whole currency unit.
pub const PRICE_SCALE: u64 = 10000;

/// A provider quote as handed to the pipeline: an epoch timestamp in
/// seconds and OHLCV prices in fixed-point units.
#[derive(Clone, Copy, PartialEq, Eq, Structural, Debug)]
pub struct RawQuote {
    pub timestamp: i64,
    pub open: u64,
    pub high: u64,
    pub low: u64,
    pub volume: u64,
    pub close: u64,
    pub adjclose: u64,
}

/// One calendar-dated trading day, classified as volatile or regular.
/// Immutable once constructed.
#[derive(Clone, Copy, PartialEq, Eq, Structural, Debug)]
pub struct DailyQuote {
    pub date: Date,
    pub open: u64,
    pub high: u64,
    pub low: u64,
    pub volume: u64,
    pub close: u64,
    pub adjclose: u64,
    pub is_volatile: bool,
}

} // verus!
