//! Conversion of millisecond epoch timestamps, as one agent family's
//! transcript store keeps them, to the canonical ISO-8601 UTC string form in
//! which all last-activity timestamps are exposed and compared.

use vstd::prelude::*;

verus! {

/// The ISO-8601 UTC rendering, with milliseconds, of a count of non-leap
/// seconds since the Unix epoch. The rendering depends on the seconds count
/// alone.
pub uninterp spec fn iso_utc_of(secs: int) -> Seq<char>;

/// Every seconds count up to this bound is within the formatter's
/// representable range: it reaches about the year 262,134, safely below the
/// documented maximum of about 262,000 years.
pub const ISO_UTC_MAX_SECS: i64 = 8_210_000_000_000;

/// Up to the last second of the year 9999 the rendering has the fixed
/// 24-character width `%Y-%m-%dT%H:%M:%S%.3fZ` implies for unsigned
/// four-digit years.
pub const ISO_UTC_FIXED_WIDTH_MAX_SECS: i64 = 253_402_300_799;

/// Relies on chrono's `DateTime::from_timestamp`, which maps a seconds count
/// deterministically to the UTC date-time whenever the resulting date lies in
/// its documented range of about ±262,000 years (and to `None` otherwise),
/// and on its `format` with fixed numeric items, which renders the value
/// alone: zero-padded to two digits per field, with the year zero-padded to
/// four digits and unsigned through 9999.
#[verifier::external_body]
fn chrono_iso_utc(secs: i64) -> (r: Option<String>)
    ensures
        r matches Some(s) ==> s@ == iso_utc_of(secs as int),
        0 <= secs <= ISO_UTC_MAX_SECS ==> r is Some,
        0 <= secs <= ISO_UTC_FIXED_WIDTH_MAX_SECS ==> r is Some && r->0@.len() == 24,
{
    chrono::DateTime::from_timestamp(secs, 0).map(
        |dt| dt.format("%Y-%m-%dT%H:%M:%S%.3fZ").to_string(),
    )
}

/// The reported form of a formatted timestamp: the formatted string where
/// there is one, and "Unknown" where there is none.
pub fn activity_string(formatted: Option<String>) -> (r: String)
    ensures
        r@ == match formatted {
            Some(s) => s@,
            None => "Unknown"@,
        },
{
    match formatted {
        Some(s) => s,
        None => String::from_str("Unknown"),
    }
}

/// Formats a millisecond epoch timestamp as the canonical ISO-8601 UTC
/// string. For every timestamp within the formatter's range the rendering is
/// owed; the "Unknown" fallback is reserved for timestamps beyond it. Through
/// the year 9999 the rendering has the fixed 24-character width that the
/// aggregator's lexicographic ordering of timestamps expects.
pub fn format_activity_timestamp(ms: u64) -> (r: String)
    ensures
        ms as int / 1000 <= ISO_UTC_MAX_SECS as int ==> r@ == iso_utc_of(ms as int / 1000),
        ms as int / 1000 <= ISO_UTC_FIXED_WIDTH_MAX_SECS as int ==> r@.len() == 24,
        r@ == iso_utc_of(ms as int / 1000) || r@ == "Unknown"@,
{
    let secs_u: u64 = ms / 1000;
    assert(secs_u <= u64::MAX / 1000);
    let secs: i64 = secs_u as i64;
    activity_string(chrono_iso_utc(secs))
}

} // verus!
