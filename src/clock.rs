use vstd::prelude::*;

verus! {

/// Relies on chrono's `Utc::now` (read through `DateTime::timestamp_micros`):
/// the current UTC time in microseconds since the Unix epoch. Nothing is
/// promised of the value: it is whatever the system clock says.
#[verifier::external_body]
pub(crate) fn now_micros() -> (r: i64) {
    chrono::Utc::now().timestamp_micros()
}

} // verus!
