//! Content digests.

use vstd::prelude::*;

use sha2::Digest;

verus! {

/// What SHA-256 gives for some bytes, in lower-case hexadecimal.
pub uninterp spec fn sha256_hex_of(bytes: Seq<u8>) -> Seq<char>;

/// Whether a character is a lower-case hexadecimal digit.
pub open spec fn is_lower_hex(c: char) -> bool {
    '0' <= c <= '9' || 'a' <= c <= 'f'
}

/// Whether a text is 64 lower-case hexadecimal digits.
pub open spec fn is_digest(text: Seq<char>) -> bool {
    &&& text.len() == 64
    &&& forall|i: int| 0 <= i < text.len() ==> is_lower_hex(#[trigger] text[i])
}

/// The SHA-256 digest of some bytes, in lower-case hexadecimal.
///
/// Trusted: `sha2::Sha256::digest` depends on the bytes alone; its 32 bytes are written as 64
/// lower-case hexadecimal digits.
#[verifier::external_body]
pub(crate) fn sha256_hex(bytes: &[u8]) -> (r: String)
    ensures
        r@ == sha256_hex_of(bytes@),
        is_digest(r@),
{
    format!("{:x}", sha2::Sha256::digest(bytes))
}

} // verus!
