//! Wall-clock time and fresh identifiers.
//!
//! Both come from outside the library and differ from call to call, so
//! nothing is promised of them. Functions that need one take it as an
//! argument wherever their result is to be stated exactly.

use vstd::prelude::*;

verus! {

/// `chrono::Utc::now`, as milliseconds since the Unix epoch
/// (`DateTime::timestamp_millis`). The value depends on the machine's clock;
/// `chrono` gives up on a clock that is set before the epoch.
#[verifier::external_body]
pub(crate) fn now_millis() -> (r: i64) {
    chrono::Utc::now().timestamp_millis()
}

/// `chrono::Utc::now`, written by `DateTime::to_rfc3339`. The text depends on
/// the machine's clock; `chrono` gives up on a clock that is set before the
/// epoch.
#[verifier::external_body]
pub(crate) fn now_rfc3339() -> (r: String) {
    chrono::Utc::now().to_rfc3339()
}

/// `uuid::Uuid::new_v4`, in its hyphenated text form. The value is random.
#[verifier::external_body]
pub(crate) fn fresh_id() -> (r: String) {
    uuid::Uuid::new_v4().to_string()
}

} // verus!
