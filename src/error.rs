//! The recoverable errors that ingestion and indicators report.
use vstd::prelude::*;

verus! {

/// Errors of technical-analysis calculations.
#[derive(Clone, Copy, Debug, PartialEq, Eq, Structural)]
pub enum Error {
    /// A tick fell in a bucket that starts before the latest stored bucket; the
    /// payload is that earlier bucket start.
    InvalidTimestamp(u64),
    /// Fewer observations than the calculation needs.
    NotEnoughData,
    /// No observations at all.
    EmptyTimeSeries,
}

} // verus!
