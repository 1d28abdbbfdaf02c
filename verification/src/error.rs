//! Error surface of the rate limiter.
//!
//! Malformed caller input is a usage error and never reaches the engine;
//! invalid quota parameters are rejected before any store access; backend
//! trouble and an exhausted conditional-write retry budget surface as
//! distinct transient failures.

use vstd::prelude::*;

verus! {

/// Failure of the store's backend during one operation.
#[derive(Debug, Clone, Copy, PartialEq, Eq, Structural)]
pub enum StoreError {
    /// The backend could not be reached.
    Unavailable,
    /// The backend did not answer within its deadline.
    Timeout,
}

/// Every error the library reports.
#[derive(Debug)]
pub enum ThrottleError {
    /// Malformed caller input; carries the offending token.
    Usage(String),
    /// Invalid quota parameters, rejected before any store access.
    Quota(String),
    /// The store's backend failed.
    Store(StoreError),
    /// The conditional-write retry budget was exhausted under contention.
    Contended,
}

} // verus!
