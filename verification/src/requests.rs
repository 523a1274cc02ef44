//! The service's requests as they arrive from the transport: scheme names
//! as text, binary fields in base64. Every request is checked in full
//! before any cryptographic work begins.

use crate::crypto::{
    kem_ciphertext_len, kem_public_key_len, kem_shared_secret_len, publishes, resolves,
    signed_with_stored_key, CryptoService, Signed,
};
use crate::error::ServiceError;
use crate::layout::KeyFile;
use crate::outside::digest::sha256_digest;
use crate::outside::encoding::{base64_bytes, base64_decode, base64_encode, base64_text};
use crate::scheme::{scheme_named, verifies, SignScheme};
use vstd::prelude::*;
use vstd::string::*;
use vstd::utf8::encode_utf8;

verus! {

/// The answer to a signing request: the signature in base64, and the files
/// that have to be written before the answer is sent, `writes` into the key
/// directory and `public_writes` into the directory of public keys.
#[derive(Debug)]
pub struct SignReply {
    pub sig_base64: String,
    pub writes: Vec<KeyFile>,
    pub public_writes: Vec<KeyFile>,
}

/// The answer to a key-encapsulation request: the ciphertext and the shared
/// secret, both in base64.
#[derive(Debug)]
pub struct KemInitReply {
    pub ciphertext: String,
    pub shared_secret: String,
}

/// Whether a reply answers a signing request for a message: the key was
/// resolved, and the reply holds the base64 text of a signature made with
/// the key that the records hold afterwards.
pub open spec fn answers_sign(
    before: Map<Seq<char>, Seq<u8>>,
    after: Map<Seq<char>, Seq<u8>>,
    public_before: Map<Seq<char>, Seq<u8>>,
    public_after: Map<Seq<char>, Seq<u8>>,
    key_id: Seq<char>,
    scheme: SignScheme,
    message: Seq<u8>,
    reply: SignReply,
) -> bool {
    &&& resolves(before, after, key_id, scheme, reply.writes@)
    &&& publishes(before, public_before, public_after, key_id, scheme, reply.public_writes@)
    &&& exists|signature: Seq<u8>|
        #[trigger] signed_with_stored_key(after, key_id, scheme, message, signature)
            && reply.sig_base64@ == base64_text(signature)
}

/// What a signing request comes to. An unknown scheme name is rejected
/// first, then a message that is not base64; in both cases the records and
/// the public keys stay as they are. Every other request is answered.
pub open spec fn sign_outcome(
    before: Map<Seq<char>, Seq<u8>>,
    after: Map<Seq<char>, Seq<u8>>,
    public_before: Map<Seq<char>, Seq<u8>>,
    public_after: Map<Seq<char>, Seq<u8>>,
    message_bytes_base64: Seq<char>,
    key_id: Seq<char>,
    scheme: Seq<char>,
    r: Result<SignReply, ServiceError>,
) -> bool {
    match scheme_named(scheme) {
        None => r == Err::<SignReply, ServiceError>(ServiceError::UnsupportedScheme) && after
            == before && public_after == public_before,
        Some(scheme) => match base64_bytes(message_bytes_base64) {
            None => r == Err::<SignReply, ServiceError>(ServiceError::InvalidEncoding) && after
                == before && public_after == public_before,
            Some(message) => match r {
                Ok(reply) => answers_sign(
                    before,
                    after,
                    public_before,
                    public_after,
                    key_id,
                    scheme,
                    message,
                    reply,
                ),
                Err(_) => false,
            },
        },
    }
}

/// What a verification request comes to. An unknown scheme name is rejected
/// first, then a signature that is not base64, then a public key that is
/// not. Every other request is answered with whether the signature verifies
/// over the digest of the message's UTF-8 bytes.
pub open spec fn verify_outcome(
    message: Seq<char>,
    sig: Seq<char>,
    pubkey: Seq<char>,
    scheme: Seq<char>,
) -> Result<bool, ServiceError> {
    match scheme_named(scheme) {
        None => Err(ServiceError::UnsupportedScheme),
        Some(scheme) => match base64_bytes(sig) {
            None => Err(ServiceError::InvalidEncoding),
            Some(signature) => match base64_bytes(pubkey) {
                None => Err(ServiceError::InvalidEncoding),
                Some(public) => Ok(
                    verifies(scheme, signature, sha256_digest(encode_utf8(message)), public),
                ),
            },
        },
    }
}

/// Whether a reply holds the base64 texts of a ciphertext and of a shared
/// secret of the sizes of Kyber768.
pub open spec fn answers_kem_init(reply: KemInitReply) -> bool {
    exists|ciphertext: Seq<u8>, shared_secret: Seq<u8>|
        ciphertext.len() == kem_ciphertext_len() && shared_secret.len() == kem_shared_secret_len()
            && reply.ciphertext@ == #[trigger] base64_text(ciphertext) && reply.shared_secret@
            == #[trigger] base64_text(shared_secret)
}

/// What a key-encapsulation request comes to. A peer key that is not base64
/// is rejected first, then one that does not decode as a Kyber768 public
/// key. Every other request is answered.
pub open spec fn kem_init_outcome(peer_pubkey: Seq<char>, r: Result<KemInitReply, ServiceError>) -> bool {
    match base64_bytes(peer_pubkey) {
        None => r == Err::<KemInitReply, ServiceError>(ServiceError::InvalidEncoding),
        Some(public) => if public.len() == kem_public_key_len() {
            match r {
                Ok(reply) => answers_kem_init(reply),
                Err(_) => false,
            }
        } else {
            r == Err::<KemInitReply, ServiceError>(ServiceError::InvalidPeerKey)
        },
    }
}

/// The answer that carries a signature: its base64 text, with the files
/// that have to be written handed on as they are.
pub fn sign_reply(signed: Signed) -> (reply: SignReply)
    ensures
        reply.sig_base64@ == base64_text(signed.signature@),
        reply.writes@ == signed.writes@,
        reply.public_writes@ == signed.public_writes@,
{
    SignReply {
        sig_base64: base64_encode(signed.signature.as_slice()),
        writes: signed.writes,
        public_writes: signed.public_writes,
    }
}

/// The answer that carries a ciphertext and a shared secret: the base64
/// text of either.
pub fn kem_init_reply(ciphertext: &[u8], shared_secret: &[u8]) -> (reply: KemInitReply)
    ensures
        reply.ciphertext@ == base64_text(ciphertext@),
        reply.shared_secret@ == base64_text(shared_secret@),
{
    KemInitReply {
        ciphertext: base64_encode(ciphertext),
        shared_secret: base64_encode(shared_secret),
    }
}

/// Answers a signing request.
pub fn sign(
    service: &mut CryptoService,
    message_bytes_base64: &str,
    key_id: &str,
    scheme: &str,
) -> (r: Result<SignReply, ServiceError>)
    ensures
        sign_outcome(
            old(service)@,
            final(service)@,
            old(service).public_keys(),
            final(service).public_keys(),
            message_bytes_base64@,
            key_id@,
            scheme@,
            r,
        ),
{
    let scheme = match SignScheme::from_name(scheme) {
        Ok(scheme) => scheme,
        Err(e) => {
            return Err(e);
        },
    };
    let message = match base64_decode(message_bytes_base64) {
        Some(message) => message,
        None => {
            return Err(ServiceError::InvalidEncoding);
        },
    };
    match service.sign(message.as_slice(), key_id, scheme) {
        Ok(signed) => Ok(sign_reply(signed)),
        Err(e) => Err(e),
    }
}

/// Answers a verification request.
pub fn verify(service: &CryptoService, message: &str, sig: &str, pubkey: &str, scheme: &str) -> (r:
    Result<bool, ServiceError>)
    ensures
        r == verify_outcome(message@, sig@, pubkey@, scheme@),
{
    let scheme = match SignScheme::from_name(scheme) {
        Ok(scheme) => scheme,
        Err(e) => {
            return Err(e);
        },
    };
    let signature = match base64_decode(sig) {
        Some(signature) => signature,
        None => {
            return Err(ServiceError::InvalidEncoding);
        },
    };
    let public = match base64_decode(pubkey) {
        Some(public) => public,
        None => {
            return Err(ServiceError::InvalidEncoding);
        },
    };
    service.verify(message.as_bytes(), signature.as_slice(), public.as_slice(), scheme)
}

/// Answers a key-encapsulation request.
pub fn kem_init(service: &CryptoService, peer_pubkey: &str) -> (r: Result<
    KemInitReply,
    ServiceError,
>)
    ensures
        kem_init_outcome(peer_pubkey@, r),
{
    let public = match base64_decode(peer_pubkey) {
        Some(public) => public,
        None => {
            return Err(ServiceError::InvalidEncoding);
        },
    };
    match service.kem_init(public.as_slice()) {
        Ok(sealed) => Ok(kem_init_reply(sealed.0.as_slice(), sealed.1.as_slice())),
        Err(e) => Err(e),
    }
}

} // verus!
