use vstd::prelude::*;

use crate::record::Uuid;

verus! {

/// Calls `uuid::Uuid::new_v4` and returns the 128-bit value of the UUID it
/// makes. The value is random: nothing is promised of it.
#[verifier::external_body]
pub(crate) fn new_random_id() -> (r: Uuid) {
    uuid::Uuid::new_v4().as_u128()
}

/// What `uuid::Uuid::parse_str` gives for a string: the 128-bit value of
/// the UUID it reads, or nothing where the string is not a UUID in one of
/// the forms that function reads.
pub uninterp spec fn parsed_uuid(s: Seq<char>) -> Option<u128>;

/// Calls `uuid::Uuid::parse_str` and returns the 128-bit value of the UUID
/// it reads, or `None` where it refuses the string. The claim is only that
/// the result is `parsed_uuid` of the string; which strings it reads is not
/// written out here.
#[verifier::external_body]
pub(crate) fn parse_uuid(s: &str) -> (r: Option<Uuid>)
    ensures
        r == parsed_uuid(s@),
{
    match uuid::Uuid::parse_str(s) {
        Ok(u) => Some(u.as_u128()),
        Err(_) => None,
    }
}

} // verus!
