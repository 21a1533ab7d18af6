//! The wall clock.

use vstd::prelude::*;

verus! {

/// Reads the current moment with `chrono::Utc::now` and renders it with
/// `chrono::DateTime::to_rfc3339`, as in `2024-05-01T12:00:00.123456789+00:00`.
///
/// Nothing is claimed of the text that comes back: it depends on when the
/// call is made, and two calls may differ. `Utc::now` panics where the
/// system clock stands before the year 1970.
#[verifier::external_body]
pub(crate) fn now_rfc3339() -> (now: String) {
    chrono::Utc::now().to_rfc3339()
}

} // verus!
