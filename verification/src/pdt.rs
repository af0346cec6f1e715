//! Program-date-time stamps: RFC 3339 rendering of millisecond Unix
//! timestamps, delegated to the chrono crate.

use vstd::prelude::*;

verus! {

/// The synthetic program-date-time epoch, 2026-01-01T00:00:00+00:00,
/// in milliseconds since the Unix epoch.
pub const SYNTHETIC_EPOCH_MS: i64 = 1767225600000;

/// The RFC 3339 rendering (UTC, millisecond precision) of a millisecond
/// Unix timestamp.
pub uninterp spec fn rfc3339_of(ms: i64) -> Seq<char>;

/// Relies on chrono's `DateTime::<Utc>::from_timestamp_millis` and
/// `to_rfc3339_opts`: the rendering depends on the timestamp alone.  A
/// timestamp chrono cannot represent renders as the Unix epoch.
#[verifier::external_body]
pub fn format_rfc3339_ms(ms: i64) -> (r: String)
    ensures
        r@ == rfc3339_of(ms),
{
    match chrono::DateTime::<chrono::Utc>::from_timestamp_millis(ms) {
        Some(dt) => dt.to_rfc3339_opts(chrono::SecondsFormat::Millis, false),
        None => "1970-01-01T00:00:00.000+00:00".to_string(),
    }
}

} // verus!
