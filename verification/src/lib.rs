//! Analysis of daily stock quotes: each trading day is classified as
//! volatile or regular by a fixed intraday-range threshold, running price
//! extrema are tracked over the series, and the partitioned series is laid
//! out as a dual-style candlestick chart. The report travels as a fixed
//! JSON schema, encoded and decoded here.
//!
//! Prices are fixed-point values: a `u64` counts ten-thousandths of the
//! quote currency, so the 2% threshold rule and all extrema comparisons
//! are exact integer arithmetic.

pub mod analysis;
pub mod cli;
pub mod codec;
pub mod date;
pub mod decode;
pub mod error;
pub mod quote;
pub mod render;
pub mod roundtrip;
pub mod utils;
