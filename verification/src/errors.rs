//! Error taxonomy for the match lifecycle and session-resolution core.

use vstd::prelude::*;

verus! {

/// Failure of the session resolver: the bearer token matched no record,
/// matched more than one record, or the lookup itself failed.
#[derive(Clone, Copy, PartialEq, Eq, Structural, Debug)]
pub struct AuthError;

/// Typed errors surfaced by the core's operations.
#[derive(Clone, Copy, PartialEq, Eq, Structural, Debug)]
pub enum AppError {
    /// The bearer token resolved to zero records or to more than one.
    Unauthenticated,
    /// A referenced record does not exist in the store.
    NotFoundError,
    /// Propose was attempted while either side already has an entry for the other.
    DuplicateMatch,
    /// Accept or Reject was attempted and either side lacks an entry in the
    /// required state.
    MatchNotFound,
    /// A meeting point was requested for a counterpart with no relationship
    /// entry on the caller's side.
    NotMatched,
    /// A meeting point was requested but at least one of the two records
    /// carries no location.
    MissingLocationData,
    /// An optimistic single-record write lost a race: the record's version
    /// changed since it was read. Retryable.
    Conflict,
    /// The first of the two single-record writes succeeded and the second
    /// failed, so the pair is temporarily inconsistent. Retryable with
    /// idempotent semantics.
    PartiallyApplied,
    /// The store could not complete a write. Retryable.
    StoreUnavailable,
}

impl From<AuthError> for AppError {
    fn from(e: AuthError) -> (r: AppError)
        ensures
            r == AppError::Unauthenticated,
    {
        AppError::Unauthenticated
    }
}

impl vstd::std_specs::convert::FromSpecImpl<AuthError> for AppError {
    open spec fn obeys_from_spec() -> bool {
        true
    }

    open spec fn from_spec(e: AuthError) -> AppError {
        AppError::Unauthenticated
    }
}

} // verus!
