//! The closed set of supported signature schemes: their names on the wire,
//! the sizes of their encodings, and the names under which the key store
//! keeps their key material.

use crate::error::ServiceError;
use crate::outside::dilithium::{
    dilithium3_accepts, dilithium3_keypair, dilithium3_public_key_decodes,
    dilithium3_secret_key_decodes, dilithium3_sign, dilithium3_signature, dilithium3_verify,
};
use crate::outside::sphincs::{
    sphincs_accepts, sphincs_keypair, sphincs_public_key_decodes, sphincs_secret_key_decodes,
    sphincs_sign, sphincs_verify,
};
use crate::text::{bytes_eq, str_eq};
use vstd::prelude::*;
use vstd::slice::{slice_subrange, slice_to_vec};
use vstd::string::*;

verus! {

/// A supported signature scheme.
#[derive(Clone, Copy, Debug, PartialEq, Eq, Structural)]
pub enum SignScheme {
    Dilithium3,
    SphincsSha2128f,
}

/// Number of bytes in an encoded public key.
pub open spec fn public_key_len(scheme: SignScheme) -> nat {
    match scheme {
        SignScheme::Dilithium3 => 1952,
        SignScheme::SphincsSha2128f => 32,
    }
}

/// Number of bytes in an encoded secret key.
pub open spec fn secret_key_len(scheme: SignScheme) -> nat {
    match scheme {
        SignScheme::Dilithium3 => 4032,
        SignScheme::SphincsSha2128f => 64,
    }
}

/// Number of bytes in a detached signature.
pub open spec fn signature_len(scheme: SignScheme) -> nat {
    match scheme {
        SignScheme::Dilithium3 => 3309,
        SignScheme::SphincsSha2128f => 17088,
    }
}

/// Whether the scheme's verification accepts a signature over a message
/// under a public key, all three being encodings that decode.
pub open spec fn scheme_accepts(
    scheme: SignScheme,
    signature: Seq<u8>,
    message: Seq<u8>,
    public: Seq<u8>,
) -> bool {
    match scheme {
        SignScheme::Dilithium3 => dilithium3_accepts(signature, message, public),
        SignScheme::SphincsSha2128f => sphincs_accepts(signature, message, public),
    }
}

/// Whether a signature over a message verifies under a public key: both
/// have the sizes of the scheme and the scheme's verification accepts. A
/// signature or a key of any other size does not verify.
pub open spec fn verifies(
    scheme: SignScheme,
    signature: Seq<u8>,
    message: Seq<u8>,
    public: Seq<u8>,
) -> bool {
    &&& public.len() == public_key_len(scheme)
    &&& signature.len() == signature_len(scheme)
    &&& scheme_accepts(scheme, signature, message, public)
}

/// Whether a byte string is a signature that the scheme's signer may give
/// with a secret key over a message. Dilithium3 signs deterministically, so
/// there is one such signature; of a SPHINCS+ signature, which is
/// randomised, only the size is fixed.
pub open spec fn signature_of(
    scheme: SignScheme,
    secret: Seq<u8>,
    message: Seq<u8>,
    signature: Seq<u8>,
) -> bool {
    &&& signature.len() == signature_len(scheme)
    &&& scheme == SignScheme::Dilithium3 ==> signature == dilithium3_signature(secret, message)
}

/// Whether a Dilithium3 public key belongs to a secret key: it accepts
/// every signature that the secret key makes.
pub open spec fn dilithium3_keys_match(public: Seq<u8>, secret: Seq<u8>) -> bool {
    forall|message: Seq<u8>|
        dilithium3_accepts(#[trigger] dilithium3_signature(secret, message), message, public)
}

/// The public key that the encoding of a secret key holds. A SPHINCS+
/// secret key ends in its public key; a Dilithium3 secret key holds none.
pub open spec fn derived_public_key(scheme: SignScheme, secret: Seq<u8>) -> Option<Seq<u8>> {
    if scheme == SignScheme::SphincsSha2128f && secret.len() == secret_key_len(scheme) {
        Some(secret.subrange(32, 64))
    } else {
        None
    }
}

/// The message that is signed to find out whether a public key belongs to
/// a secret key: the empty message.
pub open spec fn probe_message() -> Seq<u8> {
    Seq::empty()
}

/// Whether a public key is known to belong to a secret key. A SPHINCS+
/// public key belongs to the secret key that holds it. A Dilithium3 public
/// key belongs to a secret key when the signature that the secret key makes
/// over the probe message verifies under it.
pub open spec fn key_belongs(scheme: SignScheme, public: Seq<u8>, secret: Seq<u8>) -> bool {
    match scheme {
        SignScheme::SphincsSha2128f => derived_public_key(scheme, secret) == Some(public),
        SignScheme::Dilithium3 => secret.len() == secret_key_len(scheme) && verifies(
            scheme,
            dilithium3_signature(secret, probe_message()),
            probe_message(),
            public,
        ),
    }
}

/// The public key that is handed out with a secret key, where the store
/// may keep a public key for it: under SPHINCS+ the one that the secret key
/// holds, whatever the store keeps; under Dilithium3 the kept one, if it
/// belongs to the secret key.
pub open spec fn matching_public_key(
    scheme: SignScheme,
    secret: Seq<u8>,
    kept: Option<Seq<u8>>,
) -> Option<Seq<u8>> {
    match scheme {
        SignScheme::SphincsSha2128f => derived_public_key(scheme, secret),
        SignScheme::Dilithium3 => match kept {
            Some(public) => if key_belongs(scheme, public, secret) {
                Some(public)
            } else {
                None
            },
            None => None,
        },
    }
}

/// A public key that is handed out with a secret key belongs to it.
pub proof fn lemma_matching_public_key_belongs(
    scheme: SignScheme,
    secret: Seq<u8>,
    kept: Option<Seq<u8>>,
)
    ensures
        matching_public_key(scheme, secret, kept) matches Some(public) ==> key_belongs(
            scheme,
            public,
            secret,
        ),
{
}

/// A signature made under one scheme never verifies under the other,
/// whatever the message and the key.
pub proof fn lemma_cross_scheme_rejection(
    made_under: SignScheme,
    checked_under: SignScheme,
    secret: Seq<u8>,
    signed_message: Seq<u8>,
    signature: Seq<u8>,
    message: Seq<u8>,
    public: Seq<u8>,
)
    requires
        made_under != checked_under,
        signature_of(made_under, secret, signed_message, signature),
    ensures
        !verifies(checked_under, signature, message, public),
{
}

/// The name by which requests select a scheme.
pub open spec fn scheme_name(scheme: SignScheme) -> Seq<char> {
    match scheme {
        SignScheme::Dilithium3 => "dilithium3"@,
        SignScheme::SphincsSha2128f => "sphincs-sha2-128f"@,
    }
}

/// The scheme that a name selects, if any.
pub open spec fn scheme_named(name: Seq<char>) -> Option<SignScheme> {
    if name == "dilithium3"@ {
        Some(SignScheme::Dilithium3)
    } else if name == "sphincs-sha2-128f"@ {
        Some(SignScheme::SphincsSha2128f)
    } else {
        None
    }
}

/// The name under which the store keeps the secret key of a logical key
/// identifier: the identifier with the suffix of the scheme. Every scheme
/// has a suffix of its own, so no two keys share a record.
pub open spec fn secret_record_name(key_id: Seq<char>, scheme: SignScheme) -> Seq<char> {
    match scheme {
        SignScheme::Dilithium3 => key_id + "_dilithium3"@,
        SignScheme::SphincsSha2128f => key_id + "_sphincs"@,
    }
}

/// Every scheme is selected by its own name, and the two names differ.
pub proof fn lemma_scheme_names(scheme: SignScheme)
    ensures
        scheme_named(scheme_name(scheme)) == Some(scheme),
        scheme_name(SignScheme::Dilithium3) != scheme_name(SignScheme::SphincsSha2128f),
{
    reveal_strlit("dilithium3");
    reveal_strlit("sphincs-sha2-128f");
    assert("dilithium3"@.len() != "sphincs-sha2-128f"@.len());
}

/// The qualification of identifiers is injective: two keys that differ in
/// their identifier or in their scheme have different records.
pub proof fn lemma_namespaces_isolated(
    key_id: Seq<char>,
    scheme: SignScheme,
    other_id: Seq<char>,
    other: SignScheme,
)
    requires
        key_id != other_id || scheme != other,
    ensures
        secret_record_name(key_id, scheme) != secret_record_name(other_id, other),
{
    reveal_strlit("_dilithium3");
    reveal_strlit("_sphincs");
    let a = secret_record_name(key_id, scheme);
    let b = secret_record_name(other_id, other);
    assert(a.len() == key_id.len() + if scheme == SignScheme::Dilithium3 {
        11int
    } else {
        8int
    });
    assert(b.len() == other_id.len() + if other == SignScheme::Dilithium3 {
        11int
    } else {
        8int
    });
    assert(a[a.len() - 1] == if scheme == SignScheme::Dilithium3 {
        '3'
    } else {
        's'
    });
    assert(b[b.len() - 1] == if other == SignScheme::Dilithium3 {
        '3'
    } else {
        's'
    });
    if a == b && scheme == other {
        assert(key_id =~= a.subrange(0, key_id.len() as int));
        assert(other_id =~= b.subrange(0, other_id.len() as int));
    }
}

impl SignScheme {
    /// The scheme that a request's scheme name selects. Any other name is
    /// rejected.
    pub fn from_name(name: &str) -> (r: Result<SignScheme, ServiceError>)
        ensures
            r == match scheme_named(name@) {
                Some(scheme) => Ok::<SignScheme, ServiceError>(scheme),
                None => Err(ServiceError::UnsupportedScheme),
            },
    {
        if str_eq(name, "dilithium3") {
            Ok(SignScheme::Dilithium3)
        } else if str_eq(name, "sphincs-sha2-128f") {
            Ok(SignScheme::SphincsSha2128f)
        } else {
            Err(ServiceError::UnsupportedScheme)
        }
    }

    /// The name by which requests select this scheme.
    pub fn name(self) -> (s: String)
        ensures
            s@ == scheme_name(self),
    {
        match self {
            SignScheme::Dilithium3 => String::from_str("dilithium3"),
            SignScheme::SphincsSha2128f => String::from_str("sphincs-sha2-128f"),
        }
    }

    /// Generates a fresh key pair: the public key, then the secret key.
    pub fn generate_keypair(self) -> (pair: (Vec<u8>, Vec<u8>))
        ensures
            pair.0@.len() == public_key_len(self),
            pair.1@.len() == secret_key_len(self),
            derived_public_key(self, pair.1@) matches Some(public) ==> pair.0@ == public,
            self == SignScheme::SphincsSha2128f ==> key_belongs(self, pair.0@, pair.1@),
    {
        match self {
            SignScheme::Dilithium3 => dilithium3_keypair(),
            SignScheme::SphincsSha2128f => sphincs_keypair(),
        }
    }

    /// The public key that the encoding of a secret key holds, if the
    /// scheme's secret keys hold one.
    pub fn derive_public_key(self, secret: &[u8]) -> (public: Option<Vec<u8>>)
        ensures
            match public {
                Some(key) => derived_public_key(self, secret@) == Some(key@),
                None => derived_public_key(self, secret@) is None,
            },
    {
        match self {
            SignScheme::Dilithium3 => None,
            SignScheme::SphincsSha2128f => if secret.len() == 64 {
                Some(slice_to_vec(slice_subrange(secret, 32, 64)))
            } else {
                None
            },
        }
    }

    /// Whether a public key is known to belong to a secret key. Under
    /// Dilithium3 this signs the probe message with the secret key and
    /// verifies the signature under the public key.
    pub fn public_key_belongs(self, public: &[u8], secret: &[u8]) -> (ok: bool)
        ensures
            ok == key_belongs(self, public@, secret@),
    {
        match self {
            SignScheme::SphincsSha2128f => match self.derive_public_key(secret) {
                Some(held) => bytes_eq(held.as_slice(), public),
                None => false,
            },
            SignScheme::Dilithium3 => {
                let probe: Vec<u8> = Vec::new();
                match self.sign(secret, probe.as_slice()) {
                    Some(signature) => self.verify(public, probe.as_slice(), signature.as_slice()),
                    None => false,
                }
            },
        }
    }

    /// The public key that is handed out with a secret key for which the
    /// store may keep a public key.
    pub fn matching_public_key(self, secret: &[u8], kept: Option<Vec<u8>>) -> (public: Option<
        Vec<u8>,
    >)
        ensures
            match public {
                Some(key) => matching_public_key(self, secret@, bytes_of(kept)) == Some(key@),
                None => matching_public_key(self, secret@, bytes_of(kept)) is None,
            },
    {
        match self {
            SignScheme::SphincsSha2128f => self.derive_public_key(secret),
            SignScheme::Dilithium3 => match kept {
                Some(public) => if self.public_key_belongs(public.as_slice(), secret) {
                    Some(public)
                } else {
                    None
                },
                None => None,
            },
        }
    }

    /// Whether the bytes decode as a secret key of the scheme.
    pub fn decodes_secret_key(self, bytes: &[u8]) -> (ok: bool)
        ensures
            ok == (bytes@.len() == secret_key_len(self)),
    {
        match self {
            SignScheme::Dilithium3 => dilithium3_secret_key_decodes(bytes),
            SignScheme::SphincsSha2128f => sphincs_secret_key_decodes(bytes),
        }
    }

    /// Whether the bytes decode as a public key of the scheme.
    pub fn decodes_public_key(self, bytes: &[u8]) -> (ok: bool)
        ensures
            ok == (bytes@.len() == public_key_len(self)),
    {
        match self {
            SignScheme::Dilithium3 => dilithium3_public_key_decodes(bytes),
            SignScheme::SphincsSha2128f => sphincs_public_key_decodes(bytes),
        }
    }

    /// Signs a message with a secret key. There is no signature exactly
    /// when the key does not decode.
    pub fn sign(self, secret: &[u8], message: &[u8]) -> (signature: Option<Vec<u8>>)
        ensures
            signature is Some <==> secret@.len() == secret_key_len(self),
            signature matches Some(s) ==> signature_of(self, secret@, message@, s@),
    {
        match self {
            SignScheme::Dilithium3 => dilithium3_sign(secret, message),
            SignScheme::SphincsSha2128f => sphincs_sign(secret, message),
        }
    }

    /// Verifies a signature over a message under a public key. A key or a
    /// signature that does not decode gives `false`, as a signature that
    /// the scheme rejects does.
    pub fn verify(self, public: &[u8], message: &[u8], signature: &[u8]) -> (ok: bool)
        ensures
            ok == verifies(self, signature@, message@, public@),
    {
        let verdict = match self {
            SignScheme::Dilithium3 => dilithium3_verify(signature, message, public),
            SignScheme::SphincsSha2128f => sphincs_verify(signature, message, public),
        };
        match verdict {
            Some(ok) => ok,
            None => false,
        }
    }

    /// The store's name for the secret key of `key_id` under this scheme.
    pub fn secret_record(self, key_id: &str) -> (name: String)
        ensures
            name@ == secret_record_name(key_id@, self),
    {
        let mut name = String::from_str(key_id);
        match self {
            SignScheme::Dilithium3 => {
                name.append("_dilithium3");
            },
            SignScheme::SphincsSha2128f => {
                name.append("_sphincs");
            },
        }
        name
    }
}

/// The bytes of an optional byte string.
pub open spec fn bytes_of(bytes: Option<Vec<u8>>) -> Option<Seq<u8>> {
    match bytes {
        Some(b) => Some(b@),
        None => None,
    }
}

/// The names of all supported schemes, in the order in which the service
/// advertises them.
pub fn supported_schemes() -> (names: Vec<String>)
    ensures
        names@.len() == 2,
        names@[0]@ == scheme_name(SignScheme::Dilithium3),
        names@[1]@ == scheme_name(SignScheme::SphincsSha2128f),
{
    let mut names: Vec<String> = Vec::new();
    names.push(SignScheme::Dilithium3.name());
    names.push(SignScheme::SphincsSha2128f.name());
    names
}

} // verus!
