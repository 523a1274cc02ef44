//! SPHINCS+-SHA2-128f-simple, computed by the `pqcrypto-sphincsplus` crate.

use pqcrypto_traits::sign::{DetachedSignature, PublicKey, SecretKey};
use vstd::prelude::*;

verus! {

/// Whether SPHINCS+-SHA2-128f verification accepts a signature over a
/// message under a public key.
pub uninterp spec fn sphincs_accepts(signature: Seq<u8>, message: Seq<u8>, public: Seq<u8>) -> bool;

/// Whether the signature decoder takes a byte string: it takes any that is
/// no longer than a signature.
pub open spec fn sphincs_signature_decodes(bytes: Seq<u8>) -> bool {
    bytes.len() <= 17088
}

/// Calls `sphincssha2128fsimple::keypair` and hands out the encodings of
/// the public and the secret key, in this order. The keys are random; the
/// contract states their sizes and that the secret key ends in the public
/// key, as the key format has it.
#[verifier::external_body]
pub(crate) fn sphincs_keypair() -> (pair: (Vec<u8>, Vec<u8>))
    ensures
        pair.0@.len() == 32,
        pair.1@.len() == 64,
        pair.0@ == pair.1@.subrange(32, 64),
{
    let (public, secret) = pqcrypto_sphincsplus::sphincssha2128fsimple::keypair();
    (public.as_bytes().to_vec(), secret.as_bytes().to_vec())
}

/// Calls `sphincssha2128fsimple::SecretKey::from_bytes` and tells whether
/// it decoded. The decoder accepts exactly the byte strings of the secret
/// key's size.
#[verifier::external_body]
pub(crate) fn sphincs_secret_key_decodes(bytes: &[u8]) -> (ok: bool)
    ensures
        ok == (bytes@.len() == 64),
{
    pqcrypto_sphincsplus::sphincssha2128fsimple::SecretKey::from_bytes(bytes).is_ok()
}

/// Calls `sphincssha2128fsimple::PublicKey::from_bytes` and tells whether
/// it decoded. The decoder accepts exactly the byte strings of the public
/// key's size.
#[verifier::external_body]
pub(crate) fn sphincs_public_key_decodes(bytes: &[u8]) -> (ok: bool)
    ensures
        ok == (bytes@.len() == 32),
{
    pqcrypto_sphincsplus::sphincssha2128fsimple::PublicKey::from_bytes(bytes).is_ok()
}

/// Decodes the secret key and calls `sphincssha2128fsimple::detached_sign`.
/// There is no signature exactly when the key does not decode. Signing is
/// randomised, so of a signature the contract states only its size, which
/// is fixed.
#[verifier::external_body]
pub(crate) fn sphincs_sign(secret: &[u8], message: &[u8]) -> (signature: Option<Vec<u8>>)
    ensures
        signature is Some <==> secret@.len() == 64,
        signature matches Some(s) ==> s@.len() == 17088,
{
    match pqcrypto_sphincsplus::sphincssha2128fsimple::SecretKey::from_bytes(secret) {
        Ok(key) => Some(
            pqcrypto_sphincsplus::sphincssha2128fsimple::detached_sign(message, &key)
                .as_bytes().to_vec(),
        ),
        Err(_) => None,
    }
}

/// Decodes the public key and the signature and calls
/// `sphincssha2128fsimple::verify_detached_signature`. There is no verdict
/// exactly when one of the two does not decode: the key decoder wants the
/// exact size, the signature decoder at most the signature size. The
/// verdict is the one the contract names; verification accepts no signature
/// of another size than the scheme's.
#[verifier::external_body]
pub(crate) fn sphincs_verify(
    signature: &[u8],
    message: &[u8],
    public: &[u8],
) -> (verdict: Option<bool>)
    ensures
        verdict is Some <==> (public@.len() == 32 && sphincs_signature_decodes(signature@)),
        verdict matches Some(ok) ==> ok == sphincs_accepts(signature@, message@, public@),
        verdict == Some(true) ==> signature@.len() == 17088,
{
    match (
        pqcrypto_sphincsplus::sphincssha2128fsimple::PublicKey::from_bytes(public),
        pqcrypto_sphincsplus::sphincssha2128fsimple::DetachedSignature::from_bytes(signature),
    ) {
        (Ok(key), Ok(sig)) => Some(
            pqcrypto_sphincsplus::sphincssha2128fsimple::verify_detached_signature(
                &sig,
                message,
                &key,
            ).is_ok(),
        ),
        _ => None,
    }
}

} // verus!
