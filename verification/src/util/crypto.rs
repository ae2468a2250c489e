//! Digests of text.
use vstd::prelude::*;

verus! {

/// The lowercase hexadecimal MD5 digest of the UTF-8 bytes of `text`.
pub uninterp spec fn md5_hex_of(text: Seq<char>) -> Seq<char>;

pub open spec fn is_lower_hex(c: char) -> bool {
    ('0' <= c && c <= '9') || ('a' <= c && c <= 'f')
}

/// Calls `md5::compute` on the bytes of `text` and formats the digest with
/// `{:x}`. The contract claims that the result depends on `text` alone and,
/// as the crate's `LowerHex` impl writes each of the 16 digest bytes as two
/// lowercase hex digits, that it has 32 such characters.
#[verifier::external_body]
pub fn md5_hex(text: &str) -> (r: String)
    ensures
        r@ == md5_hex_of(text@),
        r@.len() == 32,
        forall|i: int| 0 <= i < 32 ==> is_lower_hex(#[trigger] r@[i]),
{
    format!("{:x}", md5::compute(text.as_bytes()))
}

} // verus!
