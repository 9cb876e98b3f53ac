//! UUIDs, held as their 128-bit value. The text formats a UUID cell may use
//! are the business of the `uuid` crate; this module keeps only the value.

use vstd::prelude::*;

verus! {

/// The 128-bit value that a UUID text denotes, in any of the formats the
/// `uuid` crate accepts, or nothing when the text is no UUID.
pub uninterp spec fn uuid_value(s: Seq<char>) -> Option<u128>;

/// A UUID as its 128-bit value.
#[derive(Clone, Copy, Debug, PartialEq, Eq, Structural)]
pub struct UuidVal {
    pub bits: u128,
}

/// Relies on `uuid::Uuid::try_parse` and `Uuid::as_u128`: whether a text
/// parses, and to which value, depends on the characters alone.
#[verifier::external_body]
pub(crate) fn parse_uuid_bits(s: &str) -> (r: Option<u128>)
    ensures
        r == uuid_value(s@),
{
    match uuid::Uuid::try_parse(s) {
        Ok(u) => Some(u.as_u128()),
        Err(_) => None,
    }
}

} // verus!
