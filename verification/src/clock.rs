//! Wall-clock readings for stores that live against real time.
//!
//! The engine itself never reads a clock — it trusts the store's notion of
//! "now". This module lets a deployment seed and advance an in-process
//! store from the system clock.

use vstd::prelude::*;

use crate::units::MAX_INSTANT;

verus! {

/// Declares `time::OffsetDateTime` so its values can pass through
/// signatures; the type stays opaque.
#[verifier::external_type_specification]
#[verifier::external_body]
pub struct ExOffsetDateTime(time::OffsetDateTime);

/// Relies on `time::OffsetDateTime::now_utc` to read the system clock.
/// Nothing is assumed of the reading: every caller must cope with any
/// value.
pub assume_specification[ time::OffsetDateTime::now_utc ]() -> time::OffsetDateTime;

/// Relies on `time::OffsetDateTime::unix_timestamp_nanos` to express an
/// instant as nanoseconds since the Unix epoch. Nothing is assumed of the
/// result.
pub assume_specification[ time::OffsetDateTime::unix_timestamp_nanos ](
    t: time::OffsetDateTime,
) -> i128;

/// The current wall-clock time as nanoseconds since the Unix epoch,
/// clamped into the range of instants the engine accepts.
pub fn now_nanos() -> (r: i64)
    ensures
        0 <= r <= MAX_INSTANT,
{
    let t = time::OffsetDateTime::now_utc();
    let n: i128 = t.unix_timestamp_nanos();
    if n < 0 {
        0
    } else if n > MAX_INSTANT as i128 {
        MAX_INSTANT
    } else {
        n as i64
    }
}

} // verus!
