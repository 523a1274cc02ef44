//! The service's cryptographic operations: signing with a key that is
//! looked up or generated on first use, verification, and key
//! encapsulation.

use crate::error::ServiceError;
use crate::key_manager::{holds_record, KeyManager};
use crate::layout::KeyFile;
use crate::outside::digest::{sha256, sha256_digest};
use crate::outside::kyber::{kyber768_encapsulate, kyber768_keypair};
use crate::scheme::{
    bytes_of, derived_public_key, dilithium3_keys_match, key_belongs, lemma_namespaces_isolated,
    matching_public_key, public_key_len, scheme_accepts, secret_key_len, secret_record_name,
    signature_of, verifies, SignScheme,
};
use vstd::prelude::*;
use vstd::slice::slice_to_vec;

verus! {

/// Number of bytes in an encoded Kyber768 public key.
pub open spec fn kem_public_key_len() -> nat {
    1184
}

/// Number of bytes in an encoded Kyber768 secret key.
pub open spec fn kem_secret_key_len() -> nat {
    2400
}

/// Number of bytes in a Kyber768 ciphertext.
pub open spec fn kem_ciphertext_len() -> nat {
    1088
}

/// Number of bytes in a Kyber768 shared secret.
pub open spec fn kem_shared_secret_len() -> nat {
    32
}

/// The secret key that the records hold for a key identifier under a
/// scheme: the record under the identifier's secret name, if it decodes.
pub open spec fn stored_secret(
    records: Map<Seq<char>, Seq<u8>>,
    key_id: Seq<char>,
    scheme: SignScheme,
) -> Option<Seq<u8>> {
    let name = secret_record_name(key_id, scheme);
    if records.contains_key(name) && records[name].len() == secret_key_len(scheme) {
        Some(records[name])
    } else {
        None
    }
}

/// The public key that the store keeps for a key identifier under a
/// scheme: the public key kept for the identifier's secret record, if it
/// decodes.
pub open spec fn stored_public(
    public_keys: Map<Seq<char>, Seq<u8>>,
    key_id: Seq<char>,
    scheme: SignScheme,
) -> Option<Seq<u8>> {
    let name = secret_record_name(key_id, scheme);
    if public_keys.contains_key(name) && public_keys[name].len() == public_key_len(scheme) {
        Some(public_keys[name])
    } else {
        None
    }
}

/// The public key that is handed out with the secret key which the store
/// holds for a key identifier under a scheme. Under SPHINCS+ it is the one
/// that the secret key holds, whatever the store keeps. Under Dilithium3 it
/// is the one that the store keeps for the secret record, and only if that
/// belongs to the secret key; otherwise there is none.
pub open spec fn resolved_public(
    records: Map<Seq<char>, Seq<u8>>,
    public_keys: Map<Seq<char>, Seq<u8>>,
    key_id: Seq<char>,
    scheme: SignScheme,
) -> Option<Seq<u8>> {
    let name = secret_record_name(key_id, scheme);
    match stored_secret(records, key_id, scheme) {
        Some(secret) => matching_public_key(
            scheme,
            secret,
            if public_keys.contains_key(name) {
                Some(public_keys[name])
            } else {
                None
            },
        ),
        None => None,
    }
}

/// What resolving a key does to the records. Where they hold a secret key
/// that decodes, nothing changes and nothing is to be written. Otherwise a
/// secret key is stored under the secret record name of the identifier, no
/// other record changes, and its one file is to be written into the key
/// directory.
pub open spec fn resolves(
    before: Map<Seq<char>, Seq<u8>>,
    after: Map<Seq<char>, Seq<u8>>,
    key_id: Seq<char>,
    scheme: SignScheme,
    writes: Seq<KeyFile>,
) -> bool {
    let name = secret_record_name(key_id, scheme);
    if stored_secret(before, key_id, scheme) is Some {
        after == before && writes.len() == 0
    } else {
        &&& stored_secret(after, key_id, scheme) is Some
        &&& after == before.insert(name, after[name])
        &&& writes.len() == 1
        &&& holds_record(writes[0], after, name)
    }
}

/// What resolving a key does to the public keys that the store keeps
/// beside its records. Where the records hold a secret key that decodes,
/// nothing changes and nothing is to be written. Otherwise the public key
/// of the generated pair is kept for the secret record name of the
/// identifier, no other public key changes, and its one file is to be
/// written into the directory of public keys.
pub open spec fn publishes(
    before: Map<Seq<char>, Seq<u8>>,
    public_before: Map<Seq<char>, Seq<u8>>,
    public_after: Map<Seq<char>, Seq<u8>>,
    key_id: Seq<char>,
    scheme: SignScheme,
    public_writes: Seq<KeyFile>,
) -> bool {
    let name = secret_record_name(key_id, scheme);
    if stored_secret(before, key_id, scheme) is Some {
        public_after == public_before && public_writes.len() == 0
    } else {
        &&& stored_public(public_after, key_id, scheme) is Some
        &&& public_after == public_before.insert(name, public_after[name])
        &&& public_writes.len() == 1
        &&& holds_record(public_writes[0], public_after, name)
    }
}

/// Whether a byte string is a signature over the SHA-256 digest of a
/// message, made with the secret key that the records hold for a key
/// identifier under a scheme.
pub open spec fn signed_with_stored_key(
    records: Map<Seq<char>, Seq<u8>>,
    key_id: Seq<char>,
    scheme: SignScheme,
    message: Seq<u8>,
    signature: Seq<u8>,
) -> bool {
    match stored_secret(records, key_id, scheme) {
        Some(secret) => signature_of(scheme, secret, sha256_digest(message), signature),
        None => false,
    }
}

/// Identifier stability: of two resolutions of one identifier under one
/// scheme that follow each other, the second finds the key that the first
/// left in the records. It changes nothing, has nothing to write, and so
/// generates no key: a key is generated at most once.
pub proof fn lemma_identifier_stability(
    before: Map<Seq<char>, Seq<u8>>,
    between: Map<Seq<char>, Seq<u8>>,
    after: Map<Seq<char>, Seq<u8>>,
    public_between: Map<Seq<char>, Seq<u8>>,
    public_after: Map<Seq<char>, Seq<u8>>,
    key_id: Seq<char>,
    scheme: SignScheme,
    first_writes: Seq<KeyFile>,
    second_writes: Seq<KeyFile>,
    second_public_writes: Seq<KeyFile>,
)
    requires
        resolves(before, between, key_id, scheme, first_writes),
        resolves(between, after, key_id, scheme, second_writes),
        publishes(between, public_between, public_after, key_id, scheme, second_public_writes),
    ensures
        stored_secret(between, key_id, scheme) is Some,
        after == between,
        stored_secret(after, key_id, scheme) == stored_secret(between, key_id, scheme),
        second_writes.len() == 0,
        public_after == public_between,
        second_public_writes.len() == 0,
{
}

/// The library's share of the round trip. A signature that `sign` made over
/// a message is checked by `verify`, for the same message and under the
/// public key that the store keeps for the identifier, over the very
/// digest that was signed, and neither the signature's size nor the key's
/// stands in the way: the answer is the scheme's own verdict. That the
/// scheme accepts what it has signed is the scheme's correctness, which is
/// not stated here.
pub proof fn lemma_round_trip_up_to_scheme(
    records: Map<Seq<char>, Seq<u8>>,
    public_keys: Map<Seq<char>, Seq<u8>>,
    key_id: Seq<char>,
    scheme: SignScheme,
    message: Seq<u8>,
    signature: Seq<u8>,
)
    requires
        signed_with_stored_key(records, key_id, scheme, message, signature),
        stored_public(public_keys, key_id, scheme) is Some,
    ensures
        verifies(
            scheme,
            signature,
            sha256_digest(message),
            stored_public(public_keys, key_id, scheme)->0,
        ) == scheme_accepts(
            scheme,
            signature,
            sha256_digest(message),
            stored_public(public_keys, key_id, scheme)->0,
        ),
{
}

/// Round trip under Dilithium3: a signature that `sign` made over a message
/// verifies, for the same message, under every public key that belongs to
/// the secret key which the records hold for the identifier. That key
/// generation gives a public key which belongs to the secret key is the
/// scheme's correctness, which is not stated here.
pub proof fn lemma_round_trip_dilithium3(
    records: Map<Seq<char>, Seq<u8>>,
    key_id: Seq<char>,
    message: Seq<u8>,
    signature: Seq<u8>,
    public: Seq<u8>,
)
    requires
        signed_with_stored_key(records, key_id, SignScheme::Dilithium3, message, signature),
        public.len() == public_key_len(SignScheme::Dilithium3),
        dilithium3_keys_match(
            public,
            stored_secret(records, key_id, SignScheme::Dilithium3)->0,
        ),
    ensures
        verifies(SignScheme::Dilithium3, signature, sha256_digest(message), public),
{
}

/// Resolving a key changes one record at most: every identifier of the
/// store but the secret record name of the key keeps its bytes, no such
/// identifier comes or goes, and the same holds of the public keys.
pub proof fn lemma_resolution_keeps_other_records(
    before: Map<Seq<char>, Seq<u8>>,
    after: Map<Seq<char>, Seq<u8>>,
    public_before: Map<Seq<char>, Seq<u8>>,
    public_after: Map<Seq<char>, Seq<u8>>,
    key_id: Seq<char>,
    scheme: SignScheme,
    writes: Seq<KeyFile>,
    public_writes: Seq<KeyFile>,
    identifier: Seq<char>,
)
    requires
        resolves(before, after, key_id, scheme, writes),
        publishes(before, public_before, public_after, key_id, scheme, public_writes),
        identifier != secret_record_name(key_id, scheme),
    ensures
        after.contains_key(identifier) == before.contains_key(identifier),
        after.contains_key(identifier) ==> after[identifier] == before[identifier],
        public_after.contains_key(identifier) == public_before.contains_key(identifier),
        public_after.contains_key(identifier) ==> public_after[identifier]
            == public_before[identifier],
{
}

/// Namespace isolation: resolving a key leaves every other key as it was,
/// be it the key of another identifier or the key of the same identifier
/// under the other scheme. Its record is neither read nor written, so
/// corrupting or regenerating one key never touches another.
pub proof fn lemma_namespace_isolation(
    before: Map<Seq<char>, Seq<u8>>,
    after: Map<Seq<char>, Seq<u8>>,
    public_before: Map<Seq<char>, Seq<u8>>,
    public_after: Map<Seq<char>, Seq<u8>>,
    key_id: Seq<char>,
    scheme: SignScheme,
    writes: Seq<KeyFile>,
    public_writes: Seq<KeyFile>,
    other_id: Seq<char>,
    other: SignScheme,
)
    requires
        key_id != other_id || scheme != other,
        resolves(before, after, key_id, scheme, writes),
        publishes(before, public_before, public_after, key_id, scheme, public_writes),
    ensures
        stored_secret(after, other_id, other) == stored_secret(before, other_id, other),
        stored_public(public_after, other_id, other) == stored_public(
            public_before,
            other_id,
            other,
        ),
        after.contains_key(secret_record_name(other_id, other)) == before.contains_key(
            secret_record_name(other_id, other),
        ),
{
    lemma_namespaces_isolated(key_id, scheme, other_id, other);
}

/// A key pair resolved for signing. The public key is missing where the
/// secret key holds none itself and the store keeps none that belongs to
/// it.
#[derive(Debug)]
pub struct KeyPair {
    pub secret: Vec<u8>,
    pub public: Option<Vec<u8>>,
}

/// A resolved key pair and the files that have to be written for it:
/// `writes` into the key directory, `public_writes` into the directory of
/// public keys.
#[derive(Debug)]
pub struct Resolved {
    pub pair: KeyPair,
    pub writes: Vec<KeyFile>,
    pub public_writes: Vec<KeyFile>,
}

/// A signature and the files that have to be written before it is handed
/// on: `writes` into the key directory, `public_writes` into the directory
/// of public keys.
#[derive(Debug)]
pub struct Signed {
    pub signature: Vec<u8>,
    pub writes: Vec<KeyFile>,
    pub public_writes: Vec<KeyFile>,
}

/// The cryptographic service. It owns the key store.
pub struct CryptoService {
    key_manager: KeyManager,
}

impl View for CryptoService {
    type V = Map<Seq<char>, Seq<u8>>;

    /// The key material that the service's store holds, by identifier.
    closed spec fn view(&self) -> Map<Seq<char>, Seq<u8>> {
        self.key_manager@
    }
}

impl CryptoService {
    /// The public keys that the service's store keeps, by the identifier of
    /// the record that holds the secret key.
    pub closed spec fn public_keys(&self) -> Map<Seq<char>, Seq<u8>> {
        self.key_manager.public_keys()
    }

    /// A service over a key store.
    pub fn new(key_manager: KeyManager) -> (r: Result<CryptoService, ServiceError>)
        ensures
            r matches Ok(service) && service@ == key_manager@ && service.public_keys()
                == key_manager.public_keys(),
    {
        Ok(CryptoService { key_manager })
    }

    /// The service's key store.
    pub fn key_manager(&self) -> (store: &KeyManager)
        ensures
            store@ == self@,
            store.public_keys() == self.public_keys(),
    {
        &self.key_manager
    }

    /// The service's key store, for changing it.
    pub fn key_manager_mut(&mut self) -> (store: &mut KeyManager)
        ensures
            store@ == old(self)@,
            store.public_keys() == old(self).public_keys(),
            final(self)@ == final(store)@,
            final(self).public_keys() == final(store).public_keys(),
    {
        &mut self.key_manager
    }

    /// The key pair of an identifier under a scheme. A secret key that the
    /// store holds under the identifier's secret record name and that
    /// decodes is taken as it is. Where the store holds none, or one that does not decode, a
    /// fresh pair is generated: the secret key is stored in place of what
    /// was there, and the public key is kept beside it. Either way the
    /// secret key handed out is the one that the store holds afterwards,
    /// no other record of the store changes, and the public key handed out
    /// belongs to the secret key: under SPHINCS+ it is the one that the
    /// secret key holds, under Dilithium3 the kept one if the signature
    /// that the secret key makes over the probe message verifies under it.
    pub fn get_or_generate_keypair(&mut self, key_id: &str, scheme: SignScheme) -> (resolved:
        Resolved)
        ensures
            resolves(old(self)@, final(self)@, key_id@, scheme, resolved.writes@),
            publishes(
                old(self)@,
                old(self).public_keys(),
                final(self).public_keys(),
                key_id@,
                scheme,
                resolved.public_writes@,
            ),
            stored_secret(final(self)@, key_id@, scheme) == Some(resolved.pair.secret@),
            resolved_public(final(self)@, final(self).public_keys(), key_id@, scheme) == bytes_of(
                resolved.pair.public,
            ),
            scheme == SignScheme::SphincsSha2128f ==> bytes_of(resolved.pair.public)
                == derived_public_key(scheme, resolved.pair.secret@),
            bytes_of(resolved.pair.public) matches Some(public) ==> key_belongs(
                scheme,
                public,
                resolved.pair.secret@,
            ),
    {
        let name = scheme.secret_record(key_id);
        let mut writes: Vec<KeyFile> = Vec::new();
        let mut public_writes: Vec<KeyFile> = Vec::new();
        if let Ok(secret) = self.key_manager.get_private_key(name.as_str()) {
            if scheme.decodes_secret_key(secret.as_slice()) {
                let kept = self.key_manager.kept_public_key(name.as_str());
                let public = scheme.matching_public_key(secret.as_slice(), kept);
                return Resolved { pair: KeyPair { secret, public }, writes, public_writes };
            }
        }
        let (generated, secret) = scheme.generate_keypair();
        let secret_file = self.key_manager.add_key(name.clone(), slice_to_vec(secret.as_slice()));
        let public_file = self.key_manager.add_public_key(
            name,
            slice_to_vec(generated.as_slice()),
        );
        writes.push(secret_file);
        public_writes.push(public_file);
        let public = scheme.matching_public_key(secret.as_slice(), Some(generated));
        Resolved { pair: KeyPair { secret, public }, writes, public_writes }
    }

    /// Signs the SHA-256 digest of a message with the key of an identifier
    /// under a scheme, generating and storing the key on first use.
    pub fn sign(&mut self, message: &[u8], key_id: &str, scheme: SignScheme) -> (r: Result<
        Signed,
        ServiceError,
    >)
        ensures
            r is Ok,
            r matches Ok(signed) ==> resolves(
                old(self)@,
                final(self)@,
                key_id@,
                scheme,
                signed.writes@,
            ),
            r matches Ok(signed) ==> publishes(
                old(self)@,
                old(self).public_keys(),
                final(self).public_keys(),
                key_id@,
                scheme,
                signed.public_writes@,
            ),
            r matches Ok(signed) ==> signed_with_stored_key(
                final(self)@,
                key_id@,
                scheme,
                message@,
                signed.signature@,
            ),
    {
        let digest = sha256(message);
        let resolved = self.get_or_generate_keypair(key_id, scheme);
        match scheme.sign(resolved.pair.secret.as_slice(), digest.as_slice()) {
            Some(signature) => Ok(
                Signed {
                    signature,
                    writes: resolved.writes,
                    public_writes: resolved.public_writes,
                },
            ),
            None => Err(ServiceError::KeyResolutionError),
        }
    }

    /// Verifies a signature over the SHA-256 digest of a message under a
    /// public key. A signature or a key that does not decode, and a
    /// signature that the scheme rejects, give `Ok(false)`; there is no
    /// error.
    pub fn verify(
        &self,
        message: &[u8],
        signature: &[u8],
        public_key: &[u8],
        scheme: SignScheme,
    ) -> (r: Result<bool, ServiceError>)
        ensures
            r == Ok::<bool, ServiceError>(
                verifies(scheme, signature@, sha256_digest(message@), public_key@),
            ),
    {
        let digest = sha256(message);
        Ok(scheme.verify(public_key, digest.as_slice(), signature))
    }

    /// Encapsulates a fresh shared secret to a peer's Kyber768 public key,
    /// and hands out the ciphertext and the shared secret, in this order.
    /// Fails exactly when the peer's key does not decode.
    pub fn kem_init(&self, peer_pubkey: &[u8]) -> (r: Result<(Vec<u8>, Vec<u8>), ServiceError>)
        ensures
            match r {
                Ok(sealed) => peer_pubkey@.len() == kem_public_key_len() && sealed.0@.len()
                    == kem_ciphertext_len() && sealed.1@.len() == kem_shared_secret_len(),
                Err(e) => e == ServiceError::InvalidPeerKey && peer_pubkey@.len()
                    != kem_public_key_len(),
            },
    {
        match kyber768_encapsulate(peer_pubkey) {
            Some(sealed) => Ok(sealed),
            None => Err(ServiceError::InvalidPeerKey),
        }
    }

    /// Generates a fresh Kyber768 key pair, the public key first. The store
    /// is not involved.
    pub fn generate_kyber_keypair(&self) -> (r: Result<(Vec<u8>, Vec<u8>), ServiceError>)
        ensures
            r matches Ok(pair) && pair.0@.len() == kem_public_key_len() && pair.1@.len()
                == kem_secret_key_len(),
    {
        Ok(kyber768_keypair())
    }
}

} // verus!
