//! The current time and fresh identifiers, from chrono and uuid.
use vstd::prelude::*;

verus! {

/// Relies on chrono's `Utc::now` and `DateTime::to_rfc3339`: the current UTC
/// time as RFC 3339 text. It depends on the clock, so nothing more is stated.
#[verifier::external_body]
pub fn now_rfc3339() -> (r: String) {
    chrono::Utc::now().to_rfc3339()
}

/// Relies on chrono's `Utc::now` and `DateTime::timestamp_millis`:
/// milliseconds since the Unix epoch, read from the clock.
#[verifier::external_body]
fn epoch_millis() -> (r: i64) {
    chrono::Utc::now().timestamp_millis()
}

/// Milliseconds since the Unix epoch, as a count that cannot be negative.
pub fn now_ms() -> (r: u64) {
    let ms = epoch_millis();
    if ms < 0 {
        0
    } else {
        ms as u64
    }
}

/// A character of the hyphenated uuid form: a lowercase hex digit or `-`.
pub open spec fn is_uuid_char(c: char) -> bool {
    ('0' <= c && c <= '9') || ('a' <= c && c <= 'f') || c == '-'
}

/// Relies on uuid's `Uuid::new_v4` and its `Display`, which writes the
/// hyphenated form: 36 characters, lowercase hex digits and hyphens.
#[verifier::external_body]
pub fn new_uuid() -> (r: String)
    ensures
        r@.len() == 36,
        forall|i: int| 0 <= i < r@.len() ==> is_uuid_char(#[trigger] r@[i]),
{
    uuid::Uuid::new_v4().to_string()
}

} // verus!
