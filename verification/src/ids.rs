//! Fresh identifiers.

use vstd::prelude::*;

verus! {

/// Lowercase hexadecimal digit.
pub open spec fn is_lower_hex(c: char) -> bool {
    ('0' <= c && c <= '9') || ('a' <= c && c <= 'f')
}

/// The hyphenated text of a UUID: 36 characters, `-` at positions 8, 13, 18
/// and 23, lowercase hexadecimal digits elsewhere.
pub open spec fn is_hyphenated_uuid(s: Seq<char>) -> bool {
    &&& s.len() == 36
    &&& forall|i: int|
        0 <= i < 36 ==> if i == 8 || i == 13 || i == 18 || i == 23 {
            #[trigger] s[i] == '-'
        } else {
            is_lower_hex(s[i])
        }
}

/// `uuid::Uuid::new_v4().to_string()`: a random version-4 UUID in its
/// hyphenated lowercase form. The value is random; the contract states its
/// form only.
#[verifier::external_body]
pub(crate) fn new_uuid() -> (r: String)
    ensures
        is_hyphenated_uuid(r@),
{
    uuid::Uuid::new_v4().to_string()
}

/// `uuid::Uuid::new_v4().as_u128()`: a random version-4 UUID as a number.
/// The value is random; nothing is stated of it.
#[verifier::external_body]
pub(crate) fn new_uuid_u128() -> (r: u128) {
    uuid::Uuid::new_v4().as_u128()
}

} // verus!
