//! SHA-256 digests in hexadecimal, computed by the `sha256` crate.

use vstd::prelude::*;

verus! {

/// Number of characters of a digest: two hexadecimal digits for each of the
/// 32 bytes of SHA-256.
pub const DIGEST_HEX_LEN: usize = 64;

/// The SHA-256 digest of the UTF-8 encoding of `text`, written as lowercase
/// hexadecimal digits.
pub uninterp spec fn sha256_hex(text: Seq<char>) -> Seq<char>;

/// The two texts are the same, or SHA-256 tells them apart.
pub open spec fn digests_apart(a: Seq<char>, b: Seq<char>) -> bool {
    sha256_hex(a) == sha256_hex(b) ==> a == b
}

/// Calls `sha256::digest` on a string slice.
///
/// Trusted, not proved: the returned string is the digest that
/// [`sha256_hex`] names, a function of the characters of `text` alone, and it
/// is `DIGEST_HEX_LEN` characters long.
#[verifier::external_body]
pub(crate) fn digest(text: &str) -> (hex: String)
    ensures
        hex@ == sha256_hex(text@),
        hex@.len() == DIGEST_HEX_LEN,
{
    sha256::digest(text)
}

} // verus!
