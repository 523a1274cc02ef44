use pqsigner::error::ServiceError;
use pqsigner::scheme::{supported_schemes, SignScheme};

#[test]
fn scheme_names_are_recognised() {
    assert_eq!(SignScheme::from_name("dilithium3"), Ok(SignScheme::Dilithium3));
    assert_eq!(SignScheme::from_name("sphincs-sha2-128f"), Ok(SignScheme::SphincsSha2128f));
    assert_eq!(SignScheme::Dilithium3.name(), "dilithium3");
    assert_eq!(SignScheme::SphincsSha2128f.name(), "sphincs-sha2-128f");
    assert_eq!(supported_schemes(), vec!["dilithium3".to_string(), "sphincs-sha2-128f".to_string()]);
}

#[test]
fn other_scheme_names_are_rejected() {
    for name in ["rsa2048", "", "Dilithium3", "dilithium3 ", "kyber768", "sphincs-sha2-128s"] {
        assert_eq!(SignScheme::from_name(name), Err(ServiceError::UnsupportedScheme));
    }
}

#[test]
fn record_names_are_qualified_by_scheme() {
    assert_eq!(SignScheme::Dilithium3.secret_record("k1"), "k1_dilithium3");
    assert_eq!(SignScheme::SphincsSha2128f.secret_record("k1"), "k1_sphincs");
    assert_eq!(SignScheme::Dilithium3.secret_record(""), "_dilithium3");
}

#[test]
fn record_names_of_different_keys_differ() {
    let mut names = Vec::new();
    for key_id in ["k1", "k1_sphincs", "k1_dilithium3", "k1_pub", ""] {
        for scheme in [SignScheme::Dilithium3, SignScheme::SphincsSha2128f] {
            names.push(scheme.secret_record(key_id));
        }
    }
    for i in 0..names.len() {
        for j in 0..i {
            assert_ne!(names[i], names[j]);
        }
    }
}

#[test]
fn generated_keys_have_the_sizes_of_their_scheme() {
    let (public, secret) = SignScheme::Dilithium3.generate_keypair();
    assert_eq!((public.len(), secret.len()), (1952, 4032));
    assert_eq!(public.len(), pqcrypto_dilithium::dilithium3::public_key_bytes());
    assert_eq!(secret.len(), pqcrypto_dilithium::dilithium3::secret_key_bytes());
    assert!(SignScheme::Dilithium3.decodes_public_key(&public));
    assert!(SignScheme::Dilithium3.decodes_secret_key(&secret));
    assert!(!SignScheme::Dilithium3.decodes_secret_key(&public));
    assert!(!SignScheme::Dilithium3.decodes_public_key(&secret));
    let (public, secret) = SignScheme::SphincsSha2128f.generate_keypair();
    assert_eq!((public.len(), secret.len()), (32, 64));
    assert_eq!(public.len(), pqcrypto_sphincsplus::sphincssha2128fsimple::public_key_bytes());
    assert_eq!(secret.len(), pqcrypto_sphincsplus::sphincssha2128fsimple::secret_key_bytes());
    assert!(SignScheme::SphincsSha2128f.decodes_public_key(&public));
    assert!(SignScheme::SphincsSha2128f.decodes_secret_key(&secret));
    assert!(!SignScheme::SphincsSha2128f.decodes_secret_key(&public));
    assert!(!SignScheme::SphincsSha2128f.decodes_public_key(&[]));
}

#[test]
fn sphincs_secret_key_holds_its_public_key() {
    let (public, secret) = SignScheme::SphincsSha2128f.generate_keypair();
    assert_eq!(SignScheme::SphincsSha2128f.derive_public_key(&secret), Some(public));
    assert_eq!(SignScheme::SphincsSha2128f.derive_public_key(&secret[1..]), None);
    let mut bytes = vec![0u8; 64];
    for (i, b) in bytes.iter_mut().enumerate() {
        *b = i as u8;
    }
    let expected: Vec<u8> = (32u8..64).collect();
    assert_eq!(SignScheme::SphincsSha2128f.derive_public_key(&bytes), Some(expected));
    let (_, secret) = SignScheme::Dilithium3.generate_keypair();
    assert_eq!(SignScheme::Dilithium3.derive_public_key(&secret), None);
    assert_eq!(SignScheme::Dilithium3.derive_public_key(&bytes), None);
}

#[test]
fn public_key_belongs_to_its_secret_key_only() {
    for scheme in [SignScheme::Dilithium3, SignScheme::SphincsSha2128f] {
        let (public, secret) = scheme.generate_keypair();
        let (other_public, other_secret) = scheme.generate_keypair();
        assert!(scheme.public_key_belongs(&public, &secret));
        assert!(scheme.public_key_belongs(&other_public, &other_secret));
        assert!(!scheme.public_key_belongs(&other_public, &secret));
        assert!(!scheme.public_key_belongs(&public, &other_secret));
        assert!(!scheme.public_key_belongs(&public, &secret[1..]));
        assert!(!scheme.public_key_belongs(&public[1..], &secret));
        assert!(!scheme.public_key_belongs(&[], &[]));
        assert_eq!(scheme.matching_public_key(&secret, Some(public.clone())), Some(public.clone()));
    }
    let (public, secret) = SignScheme::Dilithium3.generate_keypair();
    let (other_public, _) = SignScheme::Dilithium3.generate_keypair();
    assert_eq!(SignScheme::Dilithium3.matching_public_key(&secret, None), None);
    assert_eq!(SignScheme::Dilithium3.matching_public_key(&secret, Some(other_public)), None);
    assert_eq!(SignScheme::Dilithium3.matching_public_key(&[1], Some(public)), None);
    let (public, secret) = SignScheme::SphincsSha2128f.generate_keypair();
    let (other_public, _) = SignScheme::SphincsSha2128f.generate_keypair();
    assert_eq!(SignScheme::SphincsSha2128f.matching_public_key(&secret, None), Some(public.clone()));
    assert_eq!(
        SignScheme::SphincsSha2128f.matching_public_key(&secret, Some(other_public)),
        Some(public)
    );
    assert_eq!(SignScheme::SphincsSha2128f.matching_public_key(&[1], None), None);
}

#[test]
fn generated_keys_differ_from_call_to_call() {
    let (first, _) = SignScheme::Dilithium3.generate_keypair();
    let (second, _) = SignScheme::Dilithium3.generate_keypair();
    assert_ne!(first, second);
}

#[test]
fn scheme_signs_and_verifies() {
    for scheme in [SignScheme::Dilithium3, SignScheme::SphincsSha2128f] {
        let (public, secret) = scheme.generate_keypair();
        let signature = scheme.sign(&secret, b"digest").unwrap();
        assert!(scheme.verify(&public, b"digest", &signature));
        assert!(!scheme.verify(&public, b"digesu", &signature));
        let (other_public, _) = scheme.generate_keypair();
        assert!(!scheme.verify(&other_public, b"digest", &signature));
    }
}

#[test]
fn signatures_have_the_size_of_their_scheme() {
    let (_, secret) = SignScheme::Dilithium3.generate_keypair();
    let signature = SignScheme::Dilithium3.sign(&secret, b"m").unwrap();
    assert_eq!(signature.len(), 3309);
    assert_eq!(signature.len(), pqcrypto_dilithium::dilithium3::signature_bytes());
    let (_, secret) = SignScheme::SphincsSha2128f.generate_keypair();
    let signature = SignScheme::SphincsSha2128f.sign(&secret, b"m").unwrap();
    assert_eq!(signature.len(), 17088);
    assert_eq!(signature.len(), pqcrypto_sphincsplus::sphincssha2128fsimple::signature_bytes());
}

#[test]
fn dilithium_signs_deterministically() {
    let (_, secret) = SignScheme::Dilithium3.generate_keypair();
    let first = SignScheme::Dilithium3.sign(&secret, b"same message").unwrap();
    let second = SignScheme::Dilithium3.sign(&secret, b"same message").unwrap();
    assert_eq!(first, second);
    let other = SignScheme::Dilithium3.sign(&secret, b"other message").unwrap();
    assert_ne!(first, other);
}

#[test]
fn a_secret_key_that_does_not_decode_signs_nothing() {
    assert_eq!(SignScheme::Dilithium3.sign(&[0u8; 64], b"m"), None);
    assert_eq!(SignScheme::SphincsSha2128f.sign(&[0u8; 63], b"m"), None);
    assert_eq!(SignScheme::SphincsSha2128f.sign(&[], b"m"), None);
}

#[test]
fn malformed_keys_and_signatures_do_not_verify() {
    for scheme in [SignScheme::Dilithium3, SignScheme::SphincsSha2128f] {
        let (public, secret) = scheme.generate_keypair();
        let signature = scheme.sign(&secret, b"m").unwrap();
        assert!(!scheme.verify(&public[1..], b"m", &signature));
        assert!(!scheme.verify(&[], b"m", &signature));
        assert!(!scheme.verify(&public, b"m", &signature[1..]));
        assert!(!scheme.verify(&public, b"m", &[]));
        let mut longer = signature.clone();
        longer.push(0);
        assert!(!scheme.verify(&public, b"m", &longer));
    }
}
