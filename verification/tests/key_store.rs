use pqsigner::error::ServiceError;
use pqsigner::key_manager::KeyManager;
use pqsigner::layout::{file_name_of, identifier_of, stays_in_directory, KeyFile};
use pqsigner::scheme::SignScheme;
use pqsigner::text::{decimal_string, str_eq};

fn file(name: &str, contents: &[u8]) -> KeyFile {
    KeyFile { name: name.to_string(), contents: contents.to_vec() }
}

fn sorted(mut names: Vec<String>) -> Vec<String> {
    names.sort();
    names
}

#[test]
fn empty_directory_gives_the_development_keys() {
    let store = KeyManager::new(&[]);
    assert_eq!(store.get_private_key("dilithium_ledger_dev").unwrap(), vec![0u8; 64]);
    assert_eq!(store.get_private_key("sphincs_ledger_dev").unwrap(), vec![1u8; 64]);
    assert_eq!(store.get_private_key("wit1").unwrap(), vec![2u8; 64]);
    assert_eq!(store.get_private_key("wit2").unwrap(), vec![3u8; 64]);
    assert_eq!(store.get_private_key("wit3").unwrap(), vec![4u8; 64]);
    assert_eq!(
        sorted(store.list_keys()),
        vec![
            "dilithium_ledger_dev".to_string(),
            "sphincs_ledger_dev".to_string(),
            "wit1".to_string(),
            "wit2".to_string(),
            "wit3".to_string(),
        ]
    );
}

#[test]
fn seeding_never_overwrites_loaded_material() {
    let store = KeyManager::new(&[file("wit1.key", &[9, 9, 9])]);
    assert_eq!(store.get_private_key("wit1").unwrap(), vec![9, 9, 9]);
    assert_eq!(store.get_private_key("wit2").unwrap(), vec![3u8; 64]);
    assert_eq!(store.list_keys().len(), 5);
}

#[test]
fn loaded_files_are_stored_under_their_stem() {
    let store = KeyManager::new(&[file("alpha.key", &[1]), file("beta.bin", &[2]), file("gamma", &[3])]);
    assert_eq!(store.get_private_key("alpha").unwrap(), vec![1]);
    assert_eq!(store.get_private_key("beta").unwrap(), vec![2]);
    assert_eq!(store.get_private_key("gamma").unwrap(), vec![3]);
    assert_eq!(store.list_keys().len(), 8);
}

#[test]
fn of_two_files_with_one_stem_the_later_counts() {
    let store = KeyManager::new(&[file("k.key", &[1]), file("k.old", &[2])]);
    assert_eq!(store.get_private_key("k").unwrap(), vec![2]);
    assert_eq!(store.list_keys().len(), 6);
}

#[test]
fn missing_identifier_is_not_found() {
    let store = KeyManager::new(&[]);
    assert_eq!(store.get_private_key("nobody").unwrap_err(), ServiceError::KeyNotFound);
    assert_eq!(store.get_public_key("nobody").unwrap_err(), ServiceError::KeyNotFound);
}

#[test]
fn public_key_of_a_missing_identifier_is_not_found() {
    let (public, _) = SignScheme::SphincsSha2128f.generate_keypair();
    let mut store = KeyManager::new(&[]);
    store.add_public_key("orphan".to_string(), public.clone());
    store.add_key("orphan_pub".to_string(), vec![2]);
    assert_eq!(store.get_public_key("orphan").unwrap_err(), ServiceError::KeyNotFound);
    assert_eq!(store.kept_public_key("orphan"), Some(public));
    assert_eq!(store.get_public_key("orphan_pub").unwrap_err(), ServiceError::PublicKeyUnknown);
    assert_eq!(store.kept_public_key("orphan_pub"), None);
}

#[test]
fn public_key_of_a_record_without_one_is_unknown() {
    let mut store = KeyManager::new(&[]);
    assert_eq!(store.get_public_key("wit1").unwrap_err(), ServiceError::PublicKeyUnknown);
    store.add_key("empty".to_string(), vec![]);
    assert_eq!(store.get_public_key("empty").unwrap_err(), ServiceError::PublicKeyUnknown);
    assert_eq!(store.get_private_key("empty").unwrap(), Vec::<u8>::new());
}

#[test]
fn add_key_inserts_and_hands_out_the_file() {
    let mut store = KeyManager::new(&[]);
    let written = store.add_key("id1".to_string(), vec![7, 8, 9]);
    assert_eq!(written.name, "id1.key");
    assert_eq!(written.contents, vec![7, 8, 9]);
    assert_eq!(store.get_private_key("id1").unwrap(), vec![7, 8, 9]);
    assert_eq!(store.list_keys().len(), 6);
}

#[test]
fn add_key_overwrites_wholesale() {
    let mut store = KeyManager::new(&[]);
    store.add_key("id1".to_string(), vec![1, 2, 3, 4]);
    let written = store.add_key("id1".to_string(), vec![5]);
    assert_eq!(written.contents, vec![5]);
    assert_eq!(store.get_private_key("id1").unwrap(), vec![5]);
    assert_eq!(store.list_keys().len(), 6);
    assert_eq!(store.get_private_key("wit3").unwrap(), vec![4u8; 64]);
}

#[test]
fn public_keys_are_kept_beside_the_records() {
    let (public, secret) = SignScheme::SphincsSha2128f.generate_keypair();
    let mut store = KeyManager::new(&[]);
    store.add_key("id1".to_string(), secret.clone());
    let before = sorted(store.list_keys());
    let written = store.add_public_key("id1".to_string(), public.clone());
    assert_eq!(written.name, "id1.key");
    assert_eq!(written.contents, public);
    assert_eq!(store.get_public_key("id1").unwrap(), public);
    assert_eq!(store.get_private_key("id1").unwrap(), secret);
    assert_eq!(sorted(store.list_keys()), before);
    assert_eq!(store.public_key_files().len(), 1);
    assert_eq!(store.key_files().len(), 6);
}

#[test]
fn public_key_that_belongs_to_another_secret_key_is_not_handed_out() {
    for scheme in [SignScheme::Dilithium3, SignScheme::SphincsSha2128f] {
        let (public, secret) = scheme.generate_keypair();
        let (other_public, other_secret) = scheme.generate_keypair();
        let mut store = KeyManager::new(&[]);
        store.add_key("id1".to_string(), secret.clone());
        store.add_public_key("id1".to_string(), other_public.clone());
        assert_eq!(store.get_public_key("id1").unwrap_err(), ServiceError::PublicKeyUnknown);
        assert_eq!(store.kept_public_key("id1"), Some(other_public.clone()));
        store.add_public_key("id1".to_string(), public.clone());
        assert_eq!(store.get_public_key("id1").unwrap(), public);
        store.add_key("id1".to_string(), other_secret);
        assert_eq!(store.get_public_key("id1").unwrap_err(), ServiceError::PublicKeyUnknown);
        store.add_public_key("id1".to_string(), other_public.clone());
        assert_eq!(store.get_public_key("id1").unwrap(), other_public);
    }
}

#[test]
fn public_key_of_material_that_is_no_key_is_unknown() {
    let mut store = KeyManager::new(&[]);
    store.add_public_key("wit1".to_string(), vec![2u8; 32]);
    assert_eq!(store.get_private_key("wit1").unwrap(), vec![2u8; 64]);
    assert_eq!(store.get_public_key("wit1").unwrap(), vec![2u8; 32]);
    store.add_public_key("wit1".to_string(), vec![3u8; 32]);
    assert_eq!(store.get_public_key("wit1").unwrap_err(), ServiceError::PublicKeyUnknown);
    store.add_public_key("wit2".to_string(), vec![0u8; 1952]);
    assert_eq!(store.get_public_key("wit2").unwrap_err(), ServiceError::PublicKeyUnknown);
}

#[test]
fn public_keys_come_from_a_listing_of_their_own() {
    let (public, secret) = SignScheme::SphincsSha2128f.generate_keypair();
    let mut store = KeyManager::new(&[file("a.key", &secret), file("b.pub", &[4])]);
    assert_eq!(store.get_public_key("a").unwrap_err(), ServiceError::PublicKeyUnknown);
    assert_eq!(store.get_private_key("b").unwrap(), vec![4]);
    store.load_public_keys(&[file("a.key", &[2]), file("c.key", &[3]), file("a.old", &public)]);
    assert_eq!(store.get_private_key("a").unwrap(), secret);
    assert_eq!(store.get_public_key("a").unwrap(), public);
    assert_eq!(store.get_private_key("c").unwrap_err(), ServiceError::KeyNotFound);
    assert_eq!(store.get_public_key("c").unwrap_err(), ServiceError::KeyNotFound);
    assert_eq!(store.kept_public_key("c"), Some(vec![3]));
    assert_eq!(store.list_keys().len(), 7);
    let files = store.public_key_files();
    assert_eq!(files.len(), 2);
    assert!(files.iter().any(|f| f.name == "a.key" && f.contents == public));
    assert!(files.iter().any(|f| f.name == "c.key" && f.contents == vec![3]));
}

#[test]
fn public_key_survives_restart() {
    let (public, secret) = SignScheme::Dilithium3.generate_keypair();
    let mut store = KeyManager::new(&[]);
    store.add_key("id1".to_string(), secret.clone());
    store.add_public_key("id1".to_string(), public.clone());
    let mut directory = store.key_files();
    directory.reverse();
    let mut restarted = KeyManager::new(&directory);
    assert_eq!(restarted.get_public_key("id1").unwrap_err(), ServiceError::PublicKeyUnknown);
    restarted.load_public_keys(&store.public_key_files());
    assert_eq!(restarted.get_private_key("id1").unwrap(), secret);
    assert_eq!(restarted.get_public_key("id1").unwrap(), public);
    assert_eq!(sorted(restarted.list_keys()), sorted(store.list_keys()));
}

#[test]
fn put_survives_restart() {
    let mut store = KeyManager::new(&[]);
    let written = store.add_key("id1".to_string(), vec![42, 0, 255]);
    let mut directory = store.key_files();
    assert_eq!(directory.len(), 6);
    assert!(directory.iter().any(|f| f.name == written.name && f.contents == written.contents));
    directory.reverse();
    let restarted = KeyManager::new(&directory);
    assert_eq!(restarted.get_private_key("id1").unwrap(), vec![42, 0, 255]);
    assert_eq!(sorted(restarted.list_keys()), sorted(store.list_keys()));
}

#[test]
fn identifier_with_dots_survives_restart() {
    let mut store = KeyManager::new(&[]);
    let written = store.add_key("a.b".to_string(), vec![1]);
    assert_eq!(written.name, "a.b.key");
    let restarted = KeyManager::new(&[written]);
    assert_eq!(restarted.get_private_key("a.b").unwrap(), vec![1]);
}

#[test]
fn empty_identifier_does_not_survive_restart() {
    let mut store = KeyManager::new(&[]);
    let written = store.add_key(String::new(), vec![1]);
    assert_eq!(written.name, ".key");
    let restarted = KeyManager::new(&[written]);
    assert_eq!(restarted.get_private_key("").unwrap_err(), ServiceError::KeyNotFound);
    assert_eq!(restarted.get_private_key(".key").unwrap(), vec![1]);
}

#[test]
fn key_files_hold_every_record() {
    let store = KeyManager::new(&[file("extra.key", &[5, 6])]);
    let files = store.key_files();
    assert_eq!(files.len(), 6);
    for name in store.list_keys() {
        let expected = store.get_private_key(&name).unwrap();
        let found: Vec<&KeyFile> = files.iter().filter(|f| f.name == format!("{}.key", name)).collect();
        assert_eq!(found.len(), 1);
        assert_eq!(found[0].contents, expected);
    }
}

#[test]
fn ephemeral_key_is_named_after_the_time() {
    let mut store = KeyManager::new(&[]);
    let (identifier, written) = store.store_ephemeral_key(1_700_000_000_123_456_789, &[1, 2, 3]);
    assert_eq!(identifier, "ephemeral_1700000000123456789");
    assert_eq!(written.name, "ephemeral_1700000000123456789.key");
    assert_eq!(written.contents, vec![1, 2, 3]);
    assert_eq!(store.get_private_key("ephemeral_1700000000123456789").unwrap(), vec![1, 2, 3]);
    let (first, _) = store.store_ephemeral_key(0, &[4]);
    assert_eq!(first, "ephemeral_0");
    assert_eq!(store.list_keys().len(), 7);
}

#[test]
fn file_names_that_leave_the_directory_are_told() {
    for name in ["k1.key", "a.b.key", ".key", "...", "clé.key", " ", "k1_dilithium3.key"] {
        assert!(stays_in_directory(name));
    }
    for name in ["", ".", "..", "../x.key", "a/b.key", "/etc/x.key", "a\\b.key", "a\0.key", "x/"] {
        assert!(!stays_in_directory(name));
    }
    assert!(!stays_in_directory(&file_name_of("../../up")));
    assert!(stays_in_directory(&file_name_of("")));
}

#[test]
fn file_names_and_stems() {
    assert_eq!(file_name_of("k1_sphincs"), "k1_sphincs.key");
    assert_eq!(file_name_of(""), ".key");
    assert_eq!(identifier_of("k1_sphincs.key"), "k1_sphincs");
    assert_eq!(identifier_of("a.b.key"), "a.b");
    assert_eq!(identifier_of("noext"), "noext");
    assert_eq!(identifier_of(".key"), ".key");
    assert_eq!(identifier_of(".a.key"), ".a");
    assert_eq!(identifier_of("a."), "a");
    assert_eq!(identifier_of(".."), "..");
    assert_eq!(identifier_of(""), "");
    assert_eq!(identifier_of("clé.key"), "clé");
}

#[test]
fn stems_agree_with_the_standard_library() {
    for name in ["a.key", "a.b.key", "noext", ".key", ".a.key", "a.", "x..y", "clé.key", "..a"] {
        let expected = std::path::Path::new(name).file_stem().unwrap().to_str().unwrap();
        assert_eq!(identifier_of(name), expected);
    }
}

#[test]
fn decimal_notation() {
    assert_eq!(decimal_string(0), "0");
    assert_eq!(decimal_string(9), "9");
    assert_eq!(decimal_string(10), "10");
    assert_eq!(decimal_string(1234567890), "1234567890");
    assert_eq!(decimal_string(u128::MAX), "340282366920938463463374607431768211455");
}

#[test]
fn string_slices_compare_by_their_characters() {
    assert!(str_eq("", ""));
    assert!(str_eq("dilithium3", "dilithium3"));
    assert!(!str_eq("dilithium3", "dilithium2"));
    assert!(!str_eq("abc", "abcd"));
    assert!(str_eq("clé", "clé"));
}

#[test]
fn ephemeral_keys_of_different_times_do_not_collide() {
    let mut store = KeyManager::new(&[]);
    let (first, _) = store.store_ephemeral_key(19, &[1]);
    let (second, _) = store.store_ephemeral_key(190, &[2]);
    let (third, _) = store.store_ephemeral_key(1, &[3]);
    assert_ne!(first, second);
    assert_ne!(first, third);
    assert_eq!(store.get_private_key(&first).unwrap(), vec![1]);
    assert_eq!(store.get_private_key(&second).unwrap(), vec![2]);
    assert_eq!(store.get_private_key(&third).unwrap(), vec![3]);
    assert_eq!(store.list_keys().len(), 8);
}

#[test]
fn ephemeral_keys_of_one_time_get_different_identifiers() {
    let mut store = KeyManager::new(&[]);
    let (first, _) = store.store_ephemeral_key(7, &[1]);
    let (second, written) = store.store_ephemeral_key(7, &[2]);
    let (third, _) = store.store_ephemeral_key(7, &[3]);
    assert_eq!(first, "ephemeral_7");
    assert_eq!(second, "ephemeral_8");
    assert_eq!(third, "ephemeral_9");
    assert_eq!(written.name, "ephemeral_8.key");
    assert_eq!(store.get_private_key("ephemeral_7").unwrap(), vec![1]);
    assert_eq!(store.get_private_key("ephemeral_8").unwrap(), vec![2]);
    assert_eq!(store.get_private_key("ephemeral_9").unwrap(), vec![3]);
    assert_eq!(store.list_keys().len(), 8);
}

#[test]
fn ephemeral_key_never_overwrites_a_record() {
    let mut store = KeyManager::new(&[]);
    store.add_key("ephemeral_5".to_string(), vec![9]);
    store.add_key("ephemeral_6".to_string(), vec![8]);
    let (identifier, _) = store.store_ephemeral_key(5, &[1]);
    assert_eq!(identifier, "ephemeral_7");
    assert_eq!(store.get_private_key("ephemeral_5").unwrap(), vec![9]);
    assert_eq!(store.get_private_key("ephemeral_6").unwrap(), vec![8]);
    assert_eq!(store.get_private_key("ephemeral_7").unwrap(), vec![1]);
}

#[test]
fn ephemeral_readings_count_on_from_zero_behind_the_largest() {
    let mut store = KeyManager::new(&[]);
    let (last, _) = store.store_ephemeral_key(u128::MAX, &[1]);
    assert_eq!(last, "ephemeral_340282366920938463463374607431768211455");
    let (next, _) = store.store_ephemeral_key(u128::MAX, &[2]);
    assert_eq!(next, "ephemeral_0");
    assert_eq!(store.get_private_key(&last).unwrap(), vec![1]);
}
