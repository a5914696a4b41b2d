//! Instants are unix seconds throughout the library.  The calendar work the
//! original pipeline needs — reading a chain-provided block time, parsing an
//! RFC 3339 string off the wire, asking the clock — is chrono's, behind
//! trusted wrappers from plain values to plain values.

use vstd::prelude::*;

verus! {

/// What chrono's RFC 3339 parser yields for a given string, read as unix
/// seconds; `None` where the string is not a valid RFC 3339 instant.  The
/// result is a function of the string alone.
pub uninterp spec fn rfc3339_unix_of(s: Seq<char>) -> Option<i64>;

/// Relies on chrono's `DateTime::parse_from_rfc3339` followed by
/// `timestamp`: both depend on the characters of the string alone.
#[verifier::external_body]
pub fn parse_rfc3339_unix(s: &str) -> (r: Option<i64>)
    ensures
        r == rfc3339_unix_of(s@),
{
    match chrono::DateTime::parse_from_rfc3339(s) {
        Ok(dt) => Some(dt.timestamp()),
        Err(_) => None,
    }
}

/// Relies on std's `SystemTime::now`, read relative to the Unix epoch: the
/// clock may say anything, so nothing is promised about the value.  A clock
/// standing before the epoch reads as the epoch rather than aborting, and a
/// reading beyond the signed 64-bit range saturates.
#[verifier::external_body]
pub fn now_unix() -> i64 {
    match std::time::SystemTime::now().duration_since(std::time::UNIX_EPOCH) {
        Ok(d) => i64::try_from(d.as_secs()).unwrap_or(i64::MAX),
        Err(_) => 0,
    }
}

/// Relies on chrono's `DateTime::from_timestamp`, which returns `Some`
/// exactly when the seconds lie in chrono's representable range and is
/// documented to round-trip with `timestamp`.  Every second of the years 1
/// through 9999 is plainly inside that range.
#[verifier::external_body]
pub(crate) fn checked_unix_time(secs: i64) -> (r: Option<i64>)
    ensures
        r matches Some(x) ==> x == secs,
        -62135596800 <= secs <= 253402300799 ==> r == Some(secs),
{
    chrono::DateTime::from_timestamp(secs, 0).map(|dt| dt.timestamp())
}

/// A chain-provided block time, kept as it is when the calendar accepts it
/// and replaced by the clock's current reading otherwise.
pub fn normalize_block_time(t: i64) -> (r: i64)
    ensures
        -62135596800 <= t <= 253402300799 ==> r == t,
{
    match checked_unix_time(t) {
        Some(x) => x,
        None => now_unix(),
    }
}

} // verus!
