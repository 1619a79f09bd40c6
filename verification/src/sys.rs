//! Fresh identifiers and wall-clock timestamps.
//!
//! These are the only two places where the library reaches outside itself:
//! identifier generation (random UUIDs) and the current time.  Both are
//! wrapped so that the rest of the crate is verified against their
//! contracts; nothing else in the library touches the outside world.

use vstd::prelude::*;

verus! {

/// Relies on uuid::Uuid::new_v4 and the hyphenated Display form that its
/// ToString uses: a fresh random UUID always prints as 36 characters.
/// Nothing more is claimed: the value itself is random.
#[verifier::external_body]
pub fn fresh_id() -> (r: String)
    ensures
        r@.len() == 36,
{
    uuid::Uuid::new_v4().to_string()
}

/// Relies on chrono::Utc::now and DateTime::timestamp_millis: the current
/// time as milliseconds since the Unix epoch.  The call itself expects a
/// system clock at or after the epoch.  The result depends on the clock,
/// so nothing is claimed of it.
#[verifier::external_body]
fn clock_millis() -> i64 {
    chrono::Utc::now().timestamp_millis()
}

/// The current time as a non-negative number of milliseconds since the
/// Unix epoch.  The clock source already expects a post-epoch clock;
/// the conversion clamps at zero rather than assume it.
pub fn now_ts() -> u64 {
    let t = clock_millis();
    if t < 0 {
        0
    } else {
        t as u64
    }
}

} // verus!
