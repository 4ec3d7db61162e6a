//! The RFC 3339 parser of the `chrono` crate, as this crate uses it.

use vstd::prelude::*;

verus! {

/// What `chrono::DateTime::parse_from_rfc3339` makes of `text`, read as a Unix
/// timestamp in seconds; nothing where `text` is no RFC 3339 date and time.
pub uninterp spec fn rfc3339_seconds(text: Seq<char>) -> Option<i64>;

/// Parses `text` with `chrono::DateTime::parse_from_rfc3339` and reads the
/// result's `timestamp()`, the seconds since the Unix epoch.
///
/// Trusted: that the answer depends on `text` alone, so that it can be named
/// [`rfc3339_seconds`]. Nothing is claimed of what the answer is.
#[verifier::external_body]
pub(crate) fn parse_rfc3339(text: &str) -> (seconds: Option<i64>)
    ensures
        seconds == rfc3339_seconds(text@),
{
    match chrono::DateTime::parse_from_rfc3339(text) {
        Ok(parsed) => Some(parsed.timestamp()),
        Err(_) => None,
    }
}

} // verus!
