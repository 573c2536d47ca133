//! The two things the marketplace takes from its surroundings: fresh record ids and the time.

use vstd::prelude::*;

verus! {

/// Relies on `uuid::Uuid::new_v4` and uuid's `Display`: a random version-4 UUID written
/// in its 36-character hyphenated form. Nothing is promised about which one.
#[verifier::external_body]
pub(crate) fn new_record_id() -> (r: String)
    ensures
        r@.len() == 36,
{
    uuid::Uuid::new_v4().to_string()
}

/// Relies on `chrono::Utc::now` and `DateTime::timestamp`: the wall-clock time in whole
/// seconds since the Unix epoch. Nothing is promised about its value.
#[verifier::external_body]
pub(crate) fn now_seconds() -> (r: i64) {
    chrono::Utc::now().timestamp()
}

} // verus!
