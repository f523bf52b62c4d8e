//! The failure taxonomy of the analysis pipeline. Every failure surfaces as
//! a tagged value; no stage returns a partial report.

use vstd::prelude::*;

verus! {

/// Why an analysis request produced no report.
#[derive(Clone, Copy, PartialEq, Eq, Structural, Debug)]
pub enum AnalysisError {
    /// The provider returned zero quotes; a report would carry no data.
    EmptySeries,
    /// A quote's timestamp does not convert to a calendar date the
    /// report can carry.
    InvalidTimestamp,
    /// A quote's low price is zero, so the intraday range ratio is
    /// undefined.
    DegenerateQuote,
}

/// A wire payload does not match the report schema.
#[derive(Clone, Copy, PartialEq, Eq, Structural, Debug)]
pub enum SchemaError {
    Malformed,
}

/// Why a chart could not be laid out or drawn.
#[derive(Clone, Copy, PartialEq, Eq, Structural, Debug)]
pub enum RenderError {
    /// A series handed to the renderer is not in calendar order.
    NonChronological,
    /// The drawing backend reported a failure (raised by the caller that
    /// drives the backend, never by the layout code itself).
    Backend,
}

} // verus!
