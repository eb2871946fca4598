use vstd::prelude::*;

verus! {

/// The UTC epoch milliseconds that `chrono::DateTime::parse_from_rfc3339`
/// reads out of a string when it parses, and nothing when it rejects the
/// string; the outcome is a function of the string's characters alone.
pub uninterp spec fn rfc3339_millis(s: Seq<char>) -> Option<i64>;

/// Relies on chrono's `DateTime::parse_from_rfc3339` and `timestamp_millis`:
/// parsing is deterministic in the input string, and the timestamp of the
/// parsed instant does not depend on anything outside it.
#[verifier::external_body]
pub(crate) fn parse_rfc3339_millis(s: &str) -> (r: Option<i64>)
    ensures
        r == rfc3339_millis(s@),
{
    match chrono::DateTime::parse_from_rfc3339(s) {
        Ok(dt) => Some(dt.timestamp_millis()),
        Err(_) => None,
    }
}

/// Relies on chrono's `Utc::now` and its strftime-style formatting: the
/// pattern `%Y-%m-%dT%H:%M:%S%.3fZ` prints a year of at least four digits
/// followed by twenty fixed further characters, whatever the current time
/// happens to be.
#[verifier::external_body]
pub(crate) fn now_rfc3339_millis() -> (r: String)
    ensures
        r@.len() >= 24,
{
    chrono::Utc::now().format("%Y-%m-%dT%H:%M:%S%.3fZ").to_string()
}

} // verus!
