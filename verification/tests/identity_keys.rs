use link_p2p::exit::{code_from, USAGE};
use link_p2p::i18n::Catalog;
use link_p2p::identity::{
    after_migration, decrypt_key_hex, default_identity_path, encrypt_key_hex, is_encrypted_key,
    load_or_create_secret_key, new_identity_file, open_key_file, resolve_identity_path,
    seal_key_file, secret_key_from_hex, validate_passphrase, IdentityChoice, IdentityPlan, KeyError, KeyFailure,
    KEY_FILE_OVERHEAD, PASSPHRASE_MAX_LEN,
};
use link_p2p::paths::Base;

const MAGIC_LEN: usize = 10;

#[test]
fn key_encryption_round_trip() {
    let hex = "abcdef0123456789".repeat(4);
    let encrypted = encrypt_key_hex(&hex, "hunter2").unwrap();
    assert!(is_encrypted_key(&encrypted));
    assert_eq!(encrypted.len(), KEY_FILE_OVERHEAD + 64);
    assert_eq!(decrypt_key_hex(&encrypted, "hunter2").unwrap(), hex);
}

#[test]
fn key_encryption_rejects_wrong_passphrase() {
    let hex = "0123456789abcdef".repeat(4);
    let encrypted = encrypt_key_hex(&hex, "right").unwrap();
    assert!(decrypt_key_hex(&encrypted, "wrong").is_err());
}

#[test]
fn key_encryption_rejects_tampered_ciphertext() {
    let hex = "0123456789abcdef".repeat(4);
    let mut encrypted = encrypt_key_hex(&hex, "hunter2").unwrap();
    let last = encrypted.len() - 1;
    encrypted[last] ^= 0x01;
    assert!(decrypt_key_hex(&encrypted, "hunter2").is_err());
    encrypted[MAGIC_LEN] ^= 0x01;
    assert!(decrypt_key_hex(&encrypted, "hunter2").is_err());
}

#[test]
fn plaintext_hex_is_not_confusable_with_encrypted() {
    let plain = "0123456789abcdef".repeat(4);
    assert!(!is_encrypted_key(plain.as_bytes()));
    assert!(!is_encrypted_key(b""));
    assert!(!is_encrypted_key(b"linkp2p-k0"));
}

#[test]
fn two_files_of_one_key_differ() {
    let hex = "0123456789abcdef".repeat(4);
    let a = encrypt_key_hex(&hex, "hunter22").unwrap();
    let b = encrypt_key_hex(&hex, "hunter22").unwrap();
    assert_ne!(a, b);
}

#[test]
fn files_that_are_not_encrypted_are_not_opened() {
    assert_eq!(decrypt_key_hex(b"0123", "x").unwrap_err().kind, KeyError::NotEncrypted);
    let sealed = seal_key_file("abc", &[7; 32], &[1; 16], &[2; 24]).unwrap();
    assert_eq!(sealed.len(), KEY_FILE_OVERHEAD + 3);
    assert_eq!(open_key_file(&sealed, &[7; 32]).unwrap(), "abc");
    assert_eq!(open_key_file(&sealed, &[8; 32]).unwrap_err().kind, KeyError::Open);
    assert_eq!(
        decrypt_key_hex(&sealed[..MAGIC_LEN + 3], "x").unwrap_err().kind,
        KeyError::Truncated
    );
}

#[test]
fn identity_file_passphrase_round_trip_on_disk() {
    let catalog = Catalog::english();
    let pass = |p: &str| Some(p.to_string());
    let key1 = [5u8; 32];

    let plan = load_or_create_secret_key(&catalog, None, pass("s3cret!!")).unwrap();
    assert!(matches!(plan, IdentityPlan::Create));
    let file = new_identity_file(&key1, &pass("s3cret!!")).unwrap();
    assert!(is_encrypted_key(&file));
    match load_or_create_secret_key(&catalog, Some(file.clone()), pass("s3cret!!")).unwrap() {
        IdentityPlan::Loaded(l) => {
            assert_eq!(l.key.unwrap(), key1);
            assert!(l.rewrite.is_none());
        },
        IdentityPlan::Create => panic!("the file is there"),
    }
    let wrong = load_or_create_secret_key(&catalog, Some(file.clone()), pass("wrong!!!"));
    assert!(match wrong {
        Err(_) => true,
        Ok(IdentityPlan::Loaded(l)) => l.key.is_err(),
        Ok(IdentityPlan::Create) => false,
    });
    let missing = load_or_create_secret_key(&catalog, Some(file), None);
    assert!(match missing {
        Err(_) => true,
        Ok(IdentityPlan::Loaded(l)) => l.key.is_err(),
        Ok(IdentityPlan::Create) => false,
    });
    assert!(validate_passphrase(&catalog, "short").is_err());
    assert!(validate_passphrase(&catalog, "你好世界测试口令").is_ok());
    assert!(validate_passphrase(&catalog, "你好世界").is_err());
    assert!(validate_passphrase(&catalog, &"a".repeat(PASSPHRASE_MAX_LEN + 1)).is_err());

    let hex: String = key1.iter().map(|b| format!("{b:02x}")).collect();
    match load_or_create_secret_key(&catalog, Some(hex.into_bytes()), pass("newpass1")).unwrap() {
        IdentityPlan::Loaded(l) => {
            assert_eq!(l.key.unwrap(), key1);
            assert!(is_encrypted_key(&l.rewrite.unwrap().unwrap()));
        },
        IdentityPlan::Create => panic!("the file is there"),
    }
}

#[test]
fn passphrases_are_checked_as_usage() {
    let catalog = Catalog::english();
    let e = validate_passphrase(&catalog, "short").unwrap_err();
    assert_eq!(code_from(&e), USAGE);
    assert!(validate_passphrase(&catalog, &"a".repeat(PASSPHRASE_MAX_LEN)).is_ok());
}

#[test]
fn secret_keys_are_sixty_four_digits() {
    let hex = "0123456789abcdef".repeat(4);
    let key = secret_key_from_hex(&hex).unwrap();
    assert_eq!(key[..8], [0x01, 0x23, 0x45, 0x67, 0x89, 0xab, 0xcd, 0xef]);
    assert_eq!(secret_key_from_hex("ab").unwrap_err().kind, KeyError::BadLength(2));
    assert_eq!(secret_key_from_hex(&"g".repeat(64)).unwrap_err().kind, KeyError::NonHex);
    assert_eq!(secret_key_from_hex(&"+1".repeat(32)).unwrap_err().kind, KeyError::NonHex);
    assert_eq!(secret_key_from_hex(&format!(" {}\n", "aB".repeat(32))).unwrap(), [0xab; 32]);
    let catalog = Catalog::english();
    assert!(KeyError::BadLength(2).message(&catalog).contains('2'));
}

#[test]
fn the_identity_file_is_found_in_order() {
    assert_eq!(resolve_identity_path(true, true, true), IdentityChoice::Explicit);
    assert_eq!(resolve_identity_path(false, true, true), IdentityChoice::Configured);
    assert_eq!(resolve_identity_path(false, false, true), IdentityChoice::MigrateLegacy);
    assert_eq!(resolve_identity_path(false, false, false), IdentityChoice::Configured);
    assert_eq!(after_migration(true), IdentityChoice::Configured);
    assert_eq!(after_migration(false), IdentityChoice::Legacy);
    let p = default_identity_path(true, true);
    assert_eq!(p.base, Base::XdgConfigHome);
    assert_eq!(p.parts, vec!["link-p2p".to_string(), "identity.key".to_string()]);
}

#[test]
fn key_failures_name_their_causes() {
    let catalog = Catalog::english();
    let e = secret_key_from_hex(&"g".repeat(64)).unwrap_err().error(&catalog);
    assert_eq!(
        e.report(),
        "identity file exists but contains non-hex characters: invalid digit found in string"
    );
    let e = open_key_file(&seal_key_file("abc", &[7; 32], &[1; 16], &[2; 24]).unwrap(), &[8; 32]);
    assert_eq!(
        e.unwrap_err().error(&catalog).report(),
        "incorrect passphrase or corrupted identity file"
    );
    let f = KeyFailure { kind: KeyError::Derive, cause: Some("out of memory".to_string()) };
    assert_eq!(f.error(&catalog).report(), "out of memory: deriving key from passphrase");
    match load_or_create_secret_key(&catalog, Some(vec![0xff, 0xfe]), None).unwrap() {
        IdentityPlan::Loaded(l) => assert_eq!(
            l.key.unwrap_err().report(),
            "identity file is neither plaintext hex nor encrypted: invalid utf-8 sequence of 1 bytes from index 0"
        ),
        IdentityPlan::Create => panic!("the file is there"),
    }
}

#[test]
fn the_salt_is_base64_to_the_derivation() {
    let mut salt = [0xfb, 0xff, 0xbf].repeat(5);
    salt.push(0xfb);
    let text = format!("{}+w", "+/".repeat(10));
    let params = argon2::Params::new(19_456, 2, 1, Some(32)).unwrap();
    let kdf = argon2::Argon2::new(argon2::Algorithm::Argon2id, argon2::Version::V0x13, params);
    let mut key = [0u8; 32];
    kdf.hash_password_into(b"hunter22", text.as_bytes(), &mut key).unwrap();
    let file = seal_key_file("some text", &key, &salt, &[2; 24]).unwrap();
    assert_eq!(decrypt_key_hex(&file, "hunter22").unwrap(), "some text");
}

#[test]
fn a_new_identity_loads_back_and_a_plain_one_is_rewritten() {
    let catalog = Catalog::english();
    let key = [0xc5u8; 32];
    let load = |file: &Vec<u8>, pass: Option<&str>| {
        match load_or_create_secret_key(&catalog, Some(file.clone()), pass.map(str::to_string)) {
            Ok(IdentityPlan::Loaded(l)) => l,
            _ => panic!("the file is there"),
        }
    };
    let plain = new_identity_file(&key, &None).unwrap();
    assert_eq!(plain, "c5".repeat(32).into_bytes());
    let l = load(&plain, None);
    assert_eq!((l.key.unwrap(), l.rewrite.is_none()), (key, true));
    let l = load(&plain, Some("longenough"));
    assert_eq!(l.key.unwrap(), key);
    let rewritten = l.rewrite.unwrap().unwrap();
    for _ in 0..2 {
        let again = load(&rewritten, Some("longenough"));
        assert_eq!((again.key.unwrap(), again.rewrite.is_none()), (key, true));
    }
    let locked = load(&rewritten, None);
    assert!(locked.key.is_err() && locked.rewrite.is_none());
    let bad = load_or_create_secret_key(&catalog, Some(plain), Some("short".to_string()));
    assert_eq!(code_from(&bad.unwrap_err()), USAGE);
}
