//! Values taken from the running system: random identifiers and the clock.
//!
//! Nothing here is a function of its arguments, so the contracts state only
//! what holds of every outcome. Callers pass the values on to constructors
//! whose results are fully determined.

use vstd::prelude::*;

verus! {

/// Calls `uuid::Uuid::new_v4` and returns its sixteen bytes. Trusted: the
/// bytes are random but for the version and variant bits of a version-4
/// identifier, which are fixed.
#[verifier::external_body]
pub(crate) fn fresh_id() -> (id: [u8; 16])
    ensures
        id@[6] / 16 == 4,
        id@[8] / 64 == 2,
{
    uuid::Uuid::new_v4().into_bytes()
}

/// Calls `chrono::Utc::now` and returns its `timestamp()`: the seconds since
/// the Unix epoch as the system clock has them. Nothing is promised of the
/// value.
#[verifier::external_body]
pub(crate) fn unix_now() -> (seconds: i64) {
    chrono::Utc::now().timestamp()
}

/// Calls `chrono::Local::now` and renders the local time of day with the
/// format `%H:%M:%S`. Nothing is promised of the text: it depends on the
/// clock and on the time zone of the machine.
#[verifier::external_body]
pub(crate) fn local_time_text() -> (text: String) {
    chrono::Local::now().format("%H:%M:%S").to_string()
}

} // verus!
