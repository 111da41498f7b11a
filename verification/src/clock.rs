//! Wall-clock time, read through chrono.
use vstd::prelude::*;

verus! {

/// The current UTC time as microseconds since the Unix epoch: chrono's
/// `Utc::now()` read through `DateTime::timestamp_micros`. The value comes
/// from the machine's clock, so nothing is stated of it.
#[verifier::external_body]
pub(crate) fn now_micros() -> i64 {
    chrono::Utc::now().timestamp_micros()
}

} // verus!
