//! The failures of a connection attempt.

use vstd::prelude::*;

verus! {

/// Why one dial to one candidate address did not give a connection.
#[derive(Clone, Copy, Debug, PartialEq, Eq)]
pub enum AttemptError {
    /// The dial did not complete within the per-attempt timeout.
    TimedOut,
    /// The dial failed; `code` is the operating system's error number.
    Io { code: i32 },
}

/// The terminal failure of one call. None is retried internally.
#[derive(Clone, Copy, Debug, PartialEq, Eq)]
pub enum ConnectError {
    /// The port is 0.
    InvalidPort,
    /// Name resolution did not complete within the clamped timeout.
    ResolutionTimeout,
    /// The resolution mechanism reported a failure; `code` is its error number.
    ResolutionFailure { code: i32 },
    /// Resolution succeeded with an empty set of addresses.
    NoAddressesFound,
    /// Every resolved address lies in a disallowed range. Carries nothing
    /// about the addresses or the ranges.
    AllAddressesBlocked,
    /// Every candidate was dialed and none connected; `cause` is the failure
    /// of the last attempt, absent only where there was no candidate at all.
    ConnectFailure { cause: Option<AttemptError> },
}

} // verus!
