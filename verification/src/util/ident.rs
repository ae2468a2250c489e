//! Fresh identifiers.
use vstd::prelude::*;
use crate::util::crypto::is_lower_hex;

verus! {

/// `s` is a version-4 UUID in hyphenated lowercase form.
pub open spec fn is_v4_uuid_text(s: Seq<char>) -> bool {
    &&& s.len() == 36
    &&& s[8] == '-' && s[13] == '-' && s[18] == '-' && s[23] == '-'
    &&& forall|i: int| 0 <= i < 36 && i != 8 && i != 13 && i != 18 && i != 23 ==> is_lower_hex(#[trigger] s[i])
    &&& s[14] == '4'
    &&& (s[19] == '8' || s[19] == '9' || s[19] == 'a' || s[19] == 'b')
}

/// Calls `uuid::Uuid::new_v4` and formats it with `to_string`. The result
/// is random; the contract claims only its form, which the crate's
/// `new_v4` (version and variant bits) and its `Display` (hyphenated
/// lowercase hex) give.
#[verifier::external_body]
pub fn new_uuid() -> (r: String)
    ensures
        is_v4_uuid_text(r@),
{
    uuid::Uuid::new_v4().to_string()
}

} // verus!
