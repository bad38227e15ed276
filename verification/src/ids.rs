//! Fresh identifiers.

use vstd::prelude::*;

verus! {

/// A hexadecimal digit as UUIDs are written: `0` to `9`, `a` to `f`.
pub open spec fn is_hex(c: char) -> bool {
    ('0' <= c && c <= '9') || ('a' <= c && c <= 'f')
}

/// The text of a random UUID: 36 characters, hyphens at their places, version
/// 4, the common variant, lower-case hexadecimal digits elsewhere.
pub open spec fn is_uuid_v4(s: Seq<char>) -> bool {
    &&& s.len() == 36
    &&& s[8] == '-' && s[13] == '-' && s[18] == '-' && s[23] == '-'
    &&& s[14] == '4'
    &&& s[19] == '8' || s[19] == '9' || s[19] == 'a' || s[19] == 'b'
    &&& forall|i: int|
        0 <= i < 36 && i != 8 && i != 13 && i != 18 && i != 23 ==> is_hex(#[trigger] s[i])
}

/// `uuid::Uuid::new_v4`, as text: a random UUID in hyphenated lower-case form.
/// That two calls never give the same one is a matter of chance and not
/// stated. Where the machine has no randomness to give, the call panics.
#[verifier::external_body]
pub(crate) fn new_uuid() -> (r: String)
    ensures
        is_uuid_v4(r@),
{
    uuid::Uuid::new_v4().to_string()
}

} // verus!
