//! Timestamps and fresh identifiers, from the clock and the random source.
use vstd::prelude::*;

verus! {

pub open spec fn is_lower_hex_or_dash(c: char) -> bool {
    ('0' <= c <= '9') || ('a' <= c <= 'f') || c == '-'
}

/// The current UTC time as an RFC 3339 string (`chrono::Utc::now().to_rfc3339()`).
/// Nothing is stated of its value: it depends on the clock.
#[verifier::external_body]
pub fn now_iso() -> (r: String) {
    chrono::Utc::now().to_rfc3339()
}

/// Today's UTC date as `YYYY-MM-DD` (`chrono::Utc::now().format("%Y-%m-%d")`).
/// Nothing is stated of its value: it depends on the clock.
#[verifier::external_body]
pub fn today_ymd() -> (r: String) {
    chrono::Utc::now().format("%Y-%m-%d").to_string()
}

/// A fresh random identifier (`uuid::Uuid::new_v4().to_string()`): the
/// hyphenated lower-case form, 36 characters of hexadecimal digits and
/// hyphens. Which identifier comes out is left open: it is random.
#[verifier::external_body]
pub fn new_uuid() -> (r: String)
    ensures
        r@.len() == 36,
        forall|i: int| 0 <= i < r@.len() ==> is_lower_hex_or_dash(#[trigger] r@[i]),
{
    uuid::Uuid::new_v4().to_string()
}

} // verus!
