//! The store's clock.

use vstd::prelude::*;

verus! {

/// Reads the wall clock through `chrono::Utc::now` and hands back
/// `DateTime::timestamp_micros` of it: microseconds since the Unix epoch.
/// Nothing is claimed of the reading; two readings may come in any order.
/// `Utc::now` does not return on a machine whose clock stands before the
/// epoch.
#[verifier::external_body]
pub(crate) fn now_micros() -> (now: i64) {
    chrono::Utc::now().timestamp_micros()
}

} // verus!
