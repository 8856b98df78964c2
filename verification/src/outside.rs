//! The crate's only calls into outside code, each behind a contract.

use vstd::prelude::*;

verus! {

/// The instant named by an RFC 3339 date-and-time string, in non-leap
/// milliseconds since the Unix epoch, when the string is well-formed;
/// `None` when it is not.
pub uninterp spec fn rfc3339_millis_of(s: Seq<char>) -> Option<i64>;

/// Relies on chrono's `DateTime::parse_from_rfc3339`, whose result is a
/// function of the characters alone, and on `timestamp_millis`, which
/// converts the parsed instant to epoch milliseconds.
#[verifier::external_body]
pub fn parse_rfc3339_millis(s: &str) -> (r: Option<i64>)
    ensures
        r == rfc3339_millis_of(s@),
{
    match chrono::DateTime::parse_from_rfc3339(s) {
        Ok(d) => Some(d.timestamp_millis()),
        Err(_) => None,
    }
}

/// Relies on uuid's `Uuid::new_v4` and its `Display` form: a fresh
/// random identifier, printed as 36 characters (lowercase hexadecimal
/// groups joined by hyphens).  Nothing further holds of the value: it
/// is random.
#[verifier::external_body]
pub fn fresh_uuid() -> (r: String)
    ensures
        r@.len() == 36,
{
    uuid::Uuid::new_v4().to_string()
}

/// Relies on std's `String::push`: appends the given character.
#[verifier::external_body]
pub fn push_char(s: &mut String, c: char)
    ensures
        final(s)@ == old(s)@.push(c),
{
    s.push(c);
}

} // verus!
