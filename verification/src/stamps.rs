//! Fresh identifiers and the current time, from `uuid` and `chrono`.

use vstd::prelude::*;

verus! {

/// A fresh random identifier: calls `uuid::Uuid::new_v4` and returns its 128 bits.
/// Nothing is stated of the value: it is random.
#[verifier::external_body]
pub(crate) fn new_uuid() -> u128 {
    uuid::Uuid::new_v4().as_u128()
}

/// The current time: calls `chrono::Utc::now` and returns microseconds since
/// the Unix epoch. Nothing is stated of the value: it depends on the clock.
#[verifier::external_body]
pub(crate) fn now_micros() -> i64 {
    chrono::Utc::now().timestamp_micros()
}

} // verus!
