//! The wall clock and local-time rendering, both of which depend on the
//! machine rather than on their arguments.
use vstd::prelude::*;

verus! {

/// Calls `chrono::Local::now` and returns its Unix timestamp in seconds.
/// The result is the current time: nothing is stated of it.
#[verifier::external_body]
pub(crate) fn unix_now() -> (t: i64) {
    chrono::Local::now().timestamp()
}

/// Renders a Unix timestamp (seconds) in the machine's local time zone as
/// `YYYY-MM-DD HH:MM` through `chrono`.  The text depends on the time zone
/// of the machine, so nothing is stated of it.
#[verifier::external_body]
pub(crate) fn format_local_minutes(secs: i64) -> (s: String) {
    match chrono::DateTime::from_timestamp(secs, 0) {
        Some(t) => t.with_timezone(&chrono::Local).format("%Y-%m-%d %H:%M").to_string(),
        None => String::new(),
    }
}

} // verus!
