//! Trusted wrappers around the identifier and timestamp crates.
//!
//! Each function's body makes exactly one outside call; its contract is what
//! the called crate's documentation promises, and nothing more.

use vstd::prelude::*;
use chrono::TimeZone;

verus! {

/// The epoch seconds the timestamp renderers accept: non-negative and
/// before the year 10000, safely inside chrono's representable range.
pub open spec fn epoch_in_range(secs: i64) -> bool {
    0 <= secs < 253_402_300_800
}

/// The textual rendering chrono gives an epoch second under the layout
/// `"%Y-%m-%d %H:%M:%S UTC"`; it depends on the second alone.
pub uninterp spec fn utc_datetime_text(secs: i64) -> Seq<char>;

/// The RFC 3339 rendering chrono gives an epoch second in UTC; it depends on
/// the second alone.
pub uninterp spec fn rfc3339_utc_text(secs: i64) -> Seq<char>;

/// The characters a hyphenated UUID rendering consists of: lower-case hex
/// digits and hyphens.
pub open spec fn is_uuid_char(c: char) -> bool {
    c == '-' || ('0' <= c && c <= '9') || ('a' <= c && c <= 'f')
}

/// The shape of a hyphenated UUID rendering.
pub open spec fn is_uuid_text(s: Seq<char>) -> bool {
    s.len() == 36 && (forall|k: int| 0 <= k < s.len() ==> is_uuid_char(#[trigger] s[k]))
}

/// Relies on uuid::Uuid::new_v4 and its Display rendering: a freshly drawn
/// random version-4 UUID in the 36-character hyphenated lower-case hex form.
/// The value is random, so nothing relates two calls.
#[verifier::external_body]
pub(crate) fn random_uuid_text() -> (r: String)
    ensures
        is_uuid_text(r@),
{
    uuid::Uuid::new_v4().to_string()
}

/// Relies on chrono's `Utc.timestamp_opt` and `DateTime::format` with the
/// layout `"%Y-%m-%d %H:%M:%S UTC"`: a pure rendering of the epoch second.
/// The bound keeps the second inside chrono's representable range.
#[verifier::external_body]
pub(crate) fn format_utc_datetime(secs: i64) -> (r: String)
    requires
        epoch_in_range(secs),
    ensures
        r@ == utc_datetime_text(secs),
{
    let dt = chrono::Utc.timestamp_opt(secs, 0).single().unwrap();
    dt.format("%Y-%m-%d %H:%M:%S UTC").to_string()
}

/// Relies on chrono's `Utc.timestamp_opt` and `DateTime::to_rfc3339`: a pure
/// RFC 3339 rendering of the epoch second. The bound keeps the second inside
/// chrono's representable range.
#[verifier::external_body]
pub(crate) fn format_rfc3339(secs: i64) -> (r: String)
    requires
        epoch_in_range(secs),
    ensures
        r@ == rfc3339_utc_text(secs),
{
    let dt = chrono::Utc.timestamp_opt(secs, 0).single().unwrap();
    dt.to_rfc3339()
}

} // verus!
