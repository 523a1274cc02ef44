//! Dilithium3, computed by the `pqcrypto-dilithium` crate.

use pqcrypto_traits::sign::{DetachedSignature, PublicKey, SecretKey};
use vstd::prelude::*;

verus! {

/// The detached signature that Dilithium3 computes with a secret key over a
/// message. Signing draws no randomness, so the signature is a function of
/// the two.
pub uninterp spec fn dilithium3_signature(secret: Seq<u8>, message: Seq<u8>) -> Seq<u8>;

/// Whether Dilithium3 verification accepts a signature over a message under
/// a public key.
pub uninterp spec fn dilithium3_accepts(signature: Seq<u8>, message: Seq<u8>, public: Seq<u8>) -> bool;

/// Whether the signature decoder takes a byte string: it takes any that is
/// no longer than a signature.
pub open spec fn dilithium3_signature_decodes(bytes: Seq<u8>) -> bool {
    bytes.len() <= 3309
}

/// Calls `dilithium3::keypair` and hands out the encodings of the public
/// and the secret key, in this order. The keys are random; the contract
/// states only their sizes.
#[verifier::external_body]
pub(crate) fn dilithium3_keypair() -> (pair: (Vec<u8>, Vec<u8>))
    ensures
        pair.0@.len() == 1952,
        pair.1@.len() == 4032,
{
    let (public, secret) = pqcrypto_dilithium::dilithium3::keypair();
    (public.as_bytes().to_vec(), secret.as_bytes().to_vec())
}

/// Calls `dilithium3::SecretKey::from_bytes` and tells whether it decoded.
/// The decoder accepts exactly the byte strings of the secret key's size.
#[verifier::external_body]
pub(crate) fn dilithium3_secret_key_decodes(bytes: &[u8]) -> (ok: bool)
    ensures
        ok == (bytes@.len() == 4032),
{
    pqcrypto_dilithium::dilithium3::SecretKey::from_bytes(bytes).is_ok()
}

/// Calls `dilithium3::PublicKey::from_bytes` and tells whether it decoded.
/// The decoder accepts exactly the byte strings of the public key's size.
#[verifier::external_body]
pub(crate) fn dilithium3_public_key_decodes(bytes: &[u8]) -> (ok: bool)
    ensures
        ok == (bytes@.len() == 1952),
{
    pqcrypto_dilithium::dilithium3::PublicKey::from_bytes(bytes).is_ok()
}

/// Decodes the secret key and calls `dilithium3::detached_sign`. There is
/// no signature exactly when the key does not decode. A signature is the
/// one the contract names and has the scheme's fixed size.
#[verifier::external_body]
pub(crate) fn dilithium3_sign(secret: &[u8], message: &[u8]) -> (signature: Option<Vec<u8>>)
    ensures
        signature is Some <==> secret@.len() == 4032,
        signature matches Some(s) ==> s@ == dilithium3_signature(secret@, message@) && s@.len()
            == 3309,
{
    match pqcrypto_dilithium::dilithium3::SecretKey::from_bytes(secret) {
        Ok(key) => Some(
            pqcrypto_dilithium::dilithium3::detached_sign(message, &key).as_bytes().to_vec(),
        ),
        Err(_) => None,
    }
}

/// Decodes the public key and the signature and calls
/// `dilithium3::verify_detached_signature`. There is no verdict exactly
/// when one of the two does not decode: the key decoder wants the exact
/// size, the signature decoder at most the signature size. The verdict is
/// the one the contract names; verification accepts no signature of another
/// size than the scheme's.
#[verifier::external_body]
pub(crate) fn dilithium3_verify(
    signature: &[u8],
    message: &[u8],
    public: &[u8],
) -> (verdict: Option<bool>)
    ensures
        verdict is Some <==> (public@.len() == 1952 && dilithium3_signature_decodes(signature@)),
        verdict matches Some(ok) ==> ok == dilithium3_accepts(signature@, message@, public@),
        verdict == Some(true) ==> signature@.len() == 3309,
{
    match (
        pqcrypto_dilithium::dilithium3::PublicKey::from_bytes(public),
        pqcrypto_dilithium::dilithium3::DetachedSignature::from_bytes(signature),
    ) {
        (Ok(key), Ok(sig)) => Some(
            pqcrypto_dilithium::dilithium3::verify_detached_signature(&sig, message, &key).is_ok(),
        ),
        _ => None,
    }
}

} // verus!
