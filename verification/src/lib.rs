//! Empirical estimation of the running-time behaviour of algorithms.
//!
//! The crate generates input sizes according to a configured probability
//! law, times an algorithm on inputs of those sizes until a requested
//! relative precision is reached, and aggregates the timings into
//! size/time series for later regression or plotting.

use vstd::prelude::*;

pub mod algorithms;
pub mod input;
pub mod measurements;
pub mod numeric;
pub mod strings;

verus! {

/// The failure conditions of the library.
///
/// Every validation failure is fail-fast: no partial output is produced.
#[derive(Clone, Copy, Debug, PartialEq, Eq, Structural)]
pub enum Error {
    /// A configuration value was rejected: a zero count, a zero relative
    /// error, an empty or inverted size range, or an empty character set.
    InvalidArgument,
    /// A timing loop reached its iteration cap before enough wall-clock
    /// time had accumulated.
    Timeout,
}

} // verus!
