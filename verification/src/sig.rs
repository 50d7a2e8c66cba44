//! Signing and verification of vote encodings.
//!
//! The counter itself never inspects key or signature bytes; it only needs
//! that signing is a deterministic function of the secret key and the
//! message, and that verification is a deterministic function of the public
//! key, the message and the signature.  Both operations are performed by the
//! `ed25519_dalek` crate behind the two trusted wrappers below, and named by
//! the two uninterpreted spec functions that their contracts apply.

use vstd::prelude::*;
use ed25519_dalek::Signer;
use ed25519_dalek::Verifier;

verus! {

/// The signature that the holder of the 32-byte secret key `sk` produces
/// over `msg`.  Ed25519 signing (RFC 8032) is deterministic, so this is a
/// function of the two arguments alone.
pub uninterp spec fn signature_of(sk: Seq<u8>, msg: Seq<u8>) -> Seq<u8>;

/// Whether `sig` is accepted as a signature over `msg` under the public key
/// bytes `pk`.  Ed25519 verification is a deterministic function of the
/// three byte strings; byte strings that decode to no key or signature are
/// never accepted.
pub uninterp spec fn sig_valid(pk: Seq<u8>, msg: Seq<u8>, sig: Seq<u8>) -> bool;

/// Relies on `ed25519_dalek::SigningKey::from_bytes` (total on 32-byte
/// seeds) and `Signer::sign` (deterministic per RFC 8032, and infallible for
/// this key type): the returned bytes are a function of `sk` and `msg`.
#[verifier::external_body]
pub(crate) fn sign_bytes(sk: &Vec<u8>, msg: &Vec<u8>) -> (r: Vec<u8>)
    requires
        sk@.len() == 32,
    ensures
        r@ == signature_of(sk@, msg@),
{
    let mut seed = [0u8; 32];
    seed.copy_from_slice(sk.as_slice());
    let key = ed25519_dalek::SigningKey::from_bytes(&seed);
    key.sign(msg.as_slice()).to_bytes().to_vec()
}

/// Relies on `ed25519_dalek::VerifyingKey::from_bytes`,
/// `ed25519_dalek::Signature::from_slice` and `Verifier::verify`: acceptance
/// is a deterministic function of the key, message and signature bytes, and
/// bytes that decode to no key or signature are rejected.
#[verifier::external_body]
pub(crate) fn verify_bytes(pk: &Vec<u8>, msg: &Vec<u8>, sig: &Vec<u8>) -> (r: bool)
    ensures
        r == sig_valid(pk@, msg@, sig@),
{
    let Ok(key_bytes) = <&[u8; 32]>::try_from(pk.as_slice()) else {
        return false;
    };
    let Ok(key) = ed25519_dalek::VerifyingKey::from_bytes(key_bytes) else {
        return false;
    };
    let Ok(signature) = ed25519_dalek::Signature::from_slice(sig.as_slice()) else {
        return false;
    };
    key.verify(msg.as_slice(), &signature).is_ok()
}

} // verus!
