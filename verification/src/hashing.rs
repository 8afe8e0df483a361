//! SHA-256 digests and their hexadecimal rendering.
//!
//! Both are computed by outside crates; this module states what the rest of
//! the library relies on.

use sha2::Digest;
use vstd::prelude::*;

verus! {

/// The SHA-256 digest of `data`, as a mathematical function of the input bytes.
pub uninterp spec fn sha256(data: Seq<u8>) -> Seq<u8>;

/// Calls `sha2::Sha256::digest`. Trusted: the 32 bytes returned are the
/// SHA-256 digest of `data`, a function of the input bytes alone.
#[verifier::external_body]
pub(crate) fn sha256_digest(data: &[u8]) -> (digest: [u8; 32])
    ensures
        digest@ == sha256(data@),
{
    sha2::Sha256::digest(data).into()
}

/// The lower-case hexadecimal digit for a value below sixteen.
pub open spec fn hex_digit(nibble: u8) -> char {
    if nibble < 10 {
        (('0' as u8) + nibble) as char
    } else {
        (('a' as u8) + (nibble - 10)) as char
    }
}

/// Lower-case hexadecimal rendering: two digits per byte, high nibble first.
pub open spec fn hex_lower(data: Seq<u8>) -> Seq<char> {
    Seq::new(
        2 * data.len(),
        |i: int|
            if i % 2 == 0 {
                hex_digit(data[i / 2] / 16)
            } else {
                hex_digit(data[i / 2] % 16)
            },
    )
}

/// Calls `hex::encode`. Trusted: the string holds two lower-case hexadecimal
/// digits for each input byte, in order, high nibble first.
#[verifier::external_body]
pub(crate) fn hex_encode(data: &[u8]) -> (text: String)
    ensures
        text@ == hex_lower(data@),
{
    hex::encode(data)
}

/// Byte-wise comparison of two digests.
pub fn digest_eq(a: &[u8; 32], b: &[u8; 32]) -> (same: bool)
    ensures
        same == (a@ == b@),
{
    let mut i: usize = 0;
    while i < 32
        invariant
            i <= 32,
            forall|j: int| 0 <= j < i ==> a@[j] == b@[j],
        decreases 32 - i,
    {
        if a[i] != b[i] {
            return false;
        }
        i += 1;
    }
    assert(a@ =~= b@);
    true
}

} // verus!
