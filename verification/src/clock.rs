//! The scheduler's single coupling to wall-clock time.

use vstd::prelude::*;
use crate::Millis;

verus! {

/// Relies on `chrono::Utc::now` and `chrono::DateTime::timestamp_millis`:
/// the current UTC instant as milliseconds since the Unix epoch. Nothing is
/// promised of the value; it depends on the system clock.
#[verifier::external_body]
pub(crate) fn now_millis() -> Millis {
    chrono::Utc::now().timestamp_millis()
}

} // verus!
