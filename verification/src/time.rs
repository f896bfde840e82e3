//! Time handling at the boundary to the `chrono` crate.
//!
//! Instants are carried through the library as plain milliseconds since the
//! Unix epoch; only parsing a wall-clock string, checking `chrono`'s
//! representable range, and reading the current time are delegated.

use core::str::FromStr;
use vstd::prelude::*;

verus! {

/// What parsing a wall-clock string as a naive date-time and reading it as UTC
/// milliseconds since the Unix epoch yields; the result depends on the
/// characters of the input alone.
pub uninterp spec fn datetime_millis_of(s: Seq<char>) -> Option<i64>;

/// Relies on `chrono::NaiveDateTime`'s `FromStr` parse, and on
/// `NaiveDateTime::and_utc` / `DateTime::timestamp_millis` to read the parsed
/// instant as milliseconds since the Unix epoch.
#[verifier::external_body]
pub(crate) fn parse_datetime_millis(s: &str) -> (r: Option<i64>)
    ensures
        r == datetime_millis_of(s@),
{
    match chrono::NaiveDateTime::from_str(s) {
        Ok(ndt) => Some(ndt.and_utc().timestamp_millis()),
        Err(_) => None,
    }
}

/// Whether a millisecond count since the Unix epoch lies inside the range that
/// `chrono` can represent as a date-time.
pub uninterp spec fn millis_in_chrono_range(ms: i64) -> bool;

/// Relies on `chrono::DateTime::from_timestamp_millis` returning `Some`
/// exactly when the millisecond count is representable.
#[verifier::external_body]
pub(crate) fn timestamp_millis_valid(ms: i64) -> (r: bool)
    ensures
        r == millis_in_chrono_range(ms),
{
    chrono::DateTime::<chrono::Utc>::from_timestamp_millis(ms).is_some()
}

/// Relies on `chrono::Utc::now`; nothing is assumed about the value returned.
/// As that call does, this aborts if the machine's clock reads before the
/// Unix epoch.
#[verifier::external_body]
pub(crate) fn now_millis() -> i64 {
    chrono::Utc::now().timestamp_millis()
}

} // verus!
