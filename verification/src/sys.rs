//! Facts obtained from the machine: fresh identifiers, the clock, and the
//! current user's name.  Each is an outside call behind a trusted wrapper;
//! the logic that consumes the results is verified for every value they may
//! take.

use vstd::prelude::*;

verus! {

/// Relies on `uuid::Uuid::new_v4` and its display form: a fresh random
/// identifier, rendered as the 36-character hyphenated lowercase form.
/// The value is random, so only its length is stated.
#[verifier::external_body]
pub fn new_unique_id() -> (r: String)
    ensures
        r@.len() == 36,
{
    uuid::Uuid::new_v4().to_string()
}

/// Relies on `chrono::Utc::now` and `timestamp_millis`: the current time as
/// milliseconds since the Unix epoch.  The value depends on the clock, so
/// nothing is stated of it.
#[verifier::external_body]
pub fn now_millis() -> (r: i64) {
    chrono::Utc::now().timestamp_millis()
}

/// Relies on `whoami::username`: the system user's name, or nothing when the
/// machine cannot report it.  The value depends on the machine, so nothing
/// is stated of it.
#[verifier::external_body]
pub fn system_username() -> (r: Option<String>) {
    whoami::username().ok()
}

} // verus!
