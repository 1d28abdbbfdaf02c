//! Time arithmetic for the rate limiter.
//!
//! All instants and durations are integer nanoseconds. An instant counts
//! nanoseconds since an epoch chosen by the store's backend; a duration is a
//! nonnegative span. The bounds below leave enough headroom in `i64` for
//! every sum and product the engine forms.

use vstd::prelude::*;

verus! {

/// Nanoseconds in one second.
pub const NANOS_PER_SEC: i64 = 1_000_000_000;

/// Upper bound on a backend clock reading the engine accepts.
pub const MAX_INSTANT: i64 = 0x4000_0000_0000_0000;

/// Upper bound on a quota's total credit `(max_burst + 1) * period` in
/// nanoseconds.
pub const MAX_CREDIT: i64 = 0x1000_0000_0000_0000;

/// Upper bound on a theoretical arrival time a store may hold: an admitted
/// write never places the TAT more than a full credit past the clock.
pub const MAX_TAT: i64 = MAX_INSTANT + MAX_CREDIT;

/// Upper bound on a time-to-live handed to the store.
pub const MAX_TTL: i64 = MAX_CREDIT + MAX_CREDIT;

/// Whole seconds in a nonnegative duration of nanoseconds, truncated.
pub fn nanos_to_seconds(n: i64) -> (s: i64)
    requires
        0 <= n,
    ensures
        s == n as int / (NANOS_PER_SEC as int),
{
    ((n as u64) / (NANOS_PER_SEC as u64)) as i64
}

/// Duration scaling: `d * k`, for callers that have bounded the product.
pub fn scale_nanos(d: i64, k: i64) -> (r: i64)
    requires
        0 <= d,
        0 <= k,
        d * k <= i64::MAX,
    ensures
        r == d * k,
{
    proof {
        assert(0 <= d * k) by (nonlinear_arith)
            requires
                0 <= d,
                0 <= k,
        ;
    }
    d * k
}

/// Duration subtraction saturating at zero.
pub fn sub_saturating_nanos(a: i64, b: i64) -> (r: i64)
    requires
        0 <= a,
        0 <= b,
    ensures
        r == if a >= b { a - b } else { 0 },
{
    if a >= b {
        a - b
    } else {
        0
    }
}

} // verus!
