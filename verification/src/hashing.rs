use sha2::Digest;
use vstd::prelude::*;

verus! {

/// The SHA-256 digest of a byte sequence. Its value is fixed by FIPS 180-4
/// and depends on the input bytes alone; the library never states what it is
/// on given bytes, only that hashlocks and redeem secrets are related by it.
pub uninterp spec fn sha256_of(input: Seq<u8>) -> Seq<u8>;

/// Relies on sha2::Sha256 (an implementation of FIPS 180-4 SHA-256): the
/// 32-byte digest is a function of the input bytes alone.
#[verifier::external_body]
pub fn sha256(input: &[u8]) -> (r: [u8; 32])
    ensures
        r@ == sha256_of(input@),
{
    let mut hasher = sha2::Sha256::new();
    hasher.update(input);
    hasher.finalize().into()
}

} // verus!
