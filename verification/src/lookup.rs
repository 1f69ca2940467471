//! Shared shapes of the account-lookup answers served to the rest of
//! the OS.

use vstd::prelude::*;

verus! {

/// The answer to one lookup: the entry, or word that none exists.  The
/// surrounding program turns internal errors into its host's generic
/// "unavailable" answer instead.
pub enum Response<T> {
    Success(T),
    NotFound,
}

/// Failures of the lookup layer.
#[derive(Debug)]
pub enum LookupError {
    /// The configured placeholder-account identity number does not fit
    /// an OS identity number.
    InvalidGhostId,
}

} // verus!
