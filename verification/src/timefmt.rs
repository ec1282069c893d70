//! Timestamps at the persistence boundary: a moment is a count of UTC
//! milliseconds, and rows store its RFC-3339 text.

use vstd::prelude::*;

verus! {

/// Largest millisecond timestamp the store accepts: the last moment
/// of year 9999, keeping every stored text four-digit-year RFC-3339.
pub const MAX_TIMESTAMP_MS: i64 = 253402300799999;

/// The RFC-3339 text of a UTC millisecond timestamp; one text per
/// moment.
pub uninterp spec fn rfc3339_of(ms: i64) -> Seq<char>;

/// Relies on chrono's DateTime::from_timestamp_millis and to_rfc3339:
/// the text is a function of the timestamp alone.
#[verifier::external_body]
pub fn format_rfc3339_ms(ms: i64) -> (r: String)
    requires
        0 <= ms <= MAX_TIMESTAMP_MS,
    ensures
        r@ == rfc3339_of(ms),
{
    let dt = chrono::DateTime::<chrono::Utc>::from_timestamp_millis(ms).unwrap();
    dt.to_rfc3339()
}

/// Relies on chrono's DateTime::parse_from_rfc3339 and
/// timestamp_millis: parsing the text chrono printed for a timestamp
/// gives that timestamp back.
#[verifier::external_body]
pub fn parse_rfc3339_ms(s: &str) -> (r: Option<i64>)
    ensures
        forall|t: i64| 0 <= t <= MAX_TIMESTAMP_MS && s@ == rfc3339_of(t) ==> r == Some(t),
{
    match chrono::DateTime::parse_from_rfc3339(s) {
        Ok(dt) => Some(dt.with_timezone(&chrono::Utc).timestamp_millis()),
        Err(_) => None,
    }
}

} // verus!
