//! The cryptographic collaborators, consumed through narrow trusted
//! interfaces: ed25519 signature verification and SHA-256 content hashing.

use vstd::prelude::*;
use sha2::Digest;

verus! {

/// Whether `sig` is a valid ed25519 signature by the public key `pk` over
/// `msg`; a function of the three byte strings alone.
pub uninterp spec fn sig_ok(pk: Seq<u8>, msg: Seq<u8>, sig: Seq<u8>) -> bool;

/// Relies on ed25519_dalek::VerifyingKey::verify_strict, with
/// VerifyingKey::from_bytes and Signature::from_bytes parsing the raw key and
/// signature: whether the check passes is determined by the key, message and
/// signature bytes alone.
#[verifier::external_body]
pub(crate) fn ed25519_verify(pk: &Vec<u8>, msg: &Vec<u8>, sig: &Vec<u8>) -> (r: bool)
    ensures
        r == sig_ok(pk@, msg@, sig@),
{
    let Ok(pk_bytes) = <&[u8; 32]>::try_from(pk.as_slice()) else { return false };
    let Ok(key) = ed25519_dalek::VerifyingKey::from_bytes(pk_bytes) else { return false };
    let Ok(sig_bytes) = <&[u8; 64]>::try_from(sig.as_slice()) else { return false };
    let signature = ed25519_dalek::Signature::from_bytes(sig_bytes);
    key.verify_strict(msg.as_slice(), &signature).is_ok()
}

/// The SHA-256 digest of a byte string; a function of the bytes alone.
pub uninterp spec fn sha256_of(data: Seq<u8>) -> Seq<u8>;

/// Relies on sha2::Sha256::digest: the 32-byte digest depends on the input
/// bytes alone.
#[verifier::external_body]
pub(crate) fn sha256(data: &Vec<u8>) -> (r: Vec<u8>)
    ensures
        r@ == sha256_of(data@),
        r@.len() == 32,
{
    sha2::Sha256::digest(data.as_slice()).to_vec()
}

} // verus!
