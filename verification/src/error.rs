//! The ways in which a slicing or a search can fail.

use vstd::prelude::*;

verus! {

/// Why a slice or an instant could not be computed.
#[derive(Debug, Clone, Copy, PartialEq, Eq, Structural)]
pub enum DayKindError {
    /// The range to slice ends before it starts.
    InvalidRange,
    /// The time zone database has no local day for an instant that had to be
    /// classified.
    NoLocalDay,
    /// The time zone database has no later local midnight for an instant from
    /// which the search had to step on.
    NoNextMidnight,
}

} // verus!
