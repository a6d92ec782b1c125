//! The digest and entropy sources the protocols rely on.
use vstd::prelude::*;

use sha2::Digest;

verus! {

/// The SHA-256 digest of a byte string.
pub uninterp spec fn sha256_of(data: Seq<u8>) -> Seq<u8>;

/// `sha2::Sha256::digest`: the SHA-256 digest of `data`, a function of the
/// input alone. Nothing else about the digest is claimed.
#[verifier::external_body]
pub(crate) fn sha256(data: &[u8]) -> (digest: [u8; 32])
    ensures
        digest@ == sha256_of(data@),
{
    sha2::Sha256::digest(data).into()
}

/// The HMAC-SHA-256 tag of `data` under `key`.
pub uninterp spec fn hmac_sha256_of(key: Seq<u8>, data: Seq<u8>) -> Seq<u8>;

/// `ring::hmac::sign` with `HMAC_SHA256`: the 32-byte tag of `data` under
/// `key`, a function of the two alone. Nothing else about the tag is claimed.
#[verifier::external_body]
pub(crate) fn hmac_sha256(key: &[u8; 32], data: &[u8]) -> (tag: [u8; 32])
    ensures
        tag@ == hmac_sha256_of(key@, data@),
{
    let signed = ring::hmac::sign(&ring::hmac::Key::new(ring::hmac::HMAC_SHA256, key), data);
    let mut tag = [0u8; 32];
    tag.copy_from_slice(signed.as_ref());
    tag
}

/// `getrandom::getrandom`: fills the array with operating-system entropy, or
/// reports failure. Nothing is claimed of the bytes: they are whatever the
/// operating system supplied.
#[verifier::external_body]
pub(crate) fn fill_random<const N: usize>(dest: &mut [u8; N]) -> (filled: bool) {
    getrandom::getrandom(dest).is_ok()
}

} // verus!
