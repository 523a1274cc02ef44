//! Kyber768, computed by the `pqcrypto-kyber` crate.

use pqcrypto_traits::kem::{Ciphertext, PublicKey, SecretKey, SharedSecret};
use vstd::prelude::*;

verus! {

/// Calls `kyber768::keypair` and hands out the encodings of the public and
/// the secret key, in this order. The keys are random; the contract states
/// only their sizes.
#[verifier::external_body]
pub(crate) fn kyber768_keypair() -> (pair: (Vec<u8>, Vec<u8>))
    ensures
        pair.0@.len() == 1184,
        pair.1@.len() == 2400,
{
    let (public, secret) = pqcrypto_kyber::kyber768::keypair();
    (public.as_bytes().to_vec(), secret.as_bytes().to_vec())
}

/// Decodes the peer's public key and calls `kyber768::encapsulate`. There
/// is no result exactly when the key does not decode; the decoder accepts
/// exactly the byte strings of the public key's size. A result holds the
/// ciphertext and the shared secret, in this order. Both are random; the
/// contract states only their sizes.
#[verifier::external_body]
pub(crate) fn kyber768_encapsulate(public: &[u8]) -> (sealed: Option<(Vec<u8>, Vec<u8>)>)
    ensures
        sealed is Some <==> public@.len() == 1184,
        sealed matches Some(pair) ==> pair.0@.len() == 1088 && pair.1@.len() == 32,
{
    match pqcrypto_kyber::kyber768::PublicKey::from_bytes(public) {
        Ok(key) => {
            let (shared, ciphertext) = pqcrypto_kyber::kyber768::encapsulate(&key);
            Some((ciphertext.as_bytes().to_vec(), shared.as_bytes().to_vec()))
        },
        Err(_) => None,
    }
}

} // verus!
