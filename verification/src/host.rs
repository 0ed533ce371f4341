//! Identifiers and timestamps drawn from the host: random ids and the clock.
use vstd::prelude::*;

verus! {

/// Relies on uuid::Uuid::new_v4 and its hyphenated rendering: a random
/// version-4 identifier always prints as 36 characters. Nothing else is
/// assumed of the drawn value.
#[verifier::external_body]
pub fn fresh_uuid() -> (r: String)
    ensures
        r@.len() == 36,
{
    uuid::Uuid::new_v4().to_string()
}

/// Relies on chrono::Utc::now and DateTime::to_rfc3339: the current instant
/// rendered as an RFC 3339 timestamp. The value depends on the clock, so
/// nothing is assumed of it.
#[verifier::external_body]
pub fn now_rfc3339() -> String {
    chrono::Utc::now().to_rfc3339()
}

} // verus!
