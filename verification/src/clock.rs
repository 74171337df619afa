//! The wall clock.

use vstd::prelude::*;

verus! {

/// The current time in milliseconds since the Unix epoch
/// (`chrono::Utc::now().timestamp_millis()`). Nothing is promised of the
/// value: it is whatever the clock of the machine reads.
#[verifier::external_body]
pub(crate) fn now_millis() -> i64 {
    chrono::Utc::now().timestamp_millis()
}

} // verus!
