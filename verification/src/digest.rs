//! SHA-256 digests and the all-zero sentinel that stands for "no predecessor".

use sha2::Digest;
use vstd::prelude::*;

verus! {

/// The SHA-256 digest of a byte string, as a mathematical function of the bytes.
pub uninterp spec fn sha256(data: Seq<u8>) -> Seq<u8>;

/// The digest that denotes "no predecessor": thirty-two zero bytes.
pub open spec fn zero_digest() -> Seq<u8> {
    Seq::new(32, |i: int| 0u8)
}

/// Computes the SHA-256 digest of `data` with `sha2::Sha256::digest`
/// (the one-shot form of `sha2::Digest`).
///
/// Trusted: the result is the SHA-256 function of the input bytes and of
/// nothing else.
#[verifier::external_body]
pub(crate) fn sha256_of(data: &[u8]) -> (digest: [u8; 32])
    ensures
        digest@ == sha256(data@),
{
    sha2::Sha256::digest(data).into()
}

/// Returns the all-zero digest.
pub fn zero_sentinel() -> (digest: [u8; 32])
    ensures
        digest@ == zero_digest(),
{
    let digest = [0u8; 32];
    assert(digest@ =~= zero_digest());
    digest
}

/// Compares two digests byte by byte.
pub fn digest_eq(a: &[u8; 32], b: &[u8; 32]) -> (same: bool)
    ensures
        same == (a@ == b@),
{
    let mut i: usize = 0;
    while i < 32
        invariant
            i <= 32,
            forall|j: int| 0 <= j < i ==> a@[j] == b@[j],
        decreases 32 - i,
    {
        if a[i] != b[i] {
            return false;
        }
        i += 1;
    }
    assert(a@ =~= b@);
    true
}

} // verus!
