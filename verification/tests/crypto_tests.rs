use keyvault::crypto::{decrypt, encrypt, looks_encrypted, magic};
use keyvault::error::{ErrorKind, VaultError};

#[test]
fn encrypted_data_has_header_and_round_trips() {
    let plain = b"{\"type\":\"kv-backup\"}";
    let sealed = encrypt(plain, "hunter2").ok().unwrap();
    assert_eq!(&sealed[..8], b"KVENC1\0\0");
    assert_eq!(sealed.len(), 8 + 16 + 12 + plain.len() + 16);
    assert!(looks_encrypted(&sealed));
    let opened = decrypt(&sealed, "hunter2").ok().unwrap();
    assert_eq!(opened, plain.to_vec());
}

#[test]
fn wrong_password_fails_authentication() {
    let sealed = encrypt(b"secret", "right").ok().unwrap();
    match decrypt(&sealed, "wrong") {
        Err(e) => {
            assert!(matches!(e, VaultError::DecryptFailed));
            assert_eq!(e.kind(), ErrorKind::PermissionDenied);
            assert_eq!(e.message(), "Decryption failed (wrong password or corrupt file)");
        }
        Ok(_) => panic!("decrypted with a wrong password"),
    }
}

#[test]
fn plain_data_is_not_encrypted() {
    assert!(!looks_encrypted(b"{}"));
    assert!(!looks_encrypted(b"KVENC1"));
    assert!(looks_encrypted(b"KVENC1\0\0"));
    assert_eq!(magic(), *b"KVENC1\0\0");
    match decrypt(b"{\"a\":1}", "pw") {
        Err(e) => {
            assert!(matches!(e, VaultError::NotEncrypted));
            assert_eq!(e.kind(), ErrorKind::InvalidData);
            assert_eq!(e.message(), "not a KeyVault encrypted file");
        }
        Ok(_) => panic!("plain data decrypted"),
    }
    match decrypt(b"KVENC1\0\0short", "pw") {
        Err(e) => assert!(matches!(e, VaultError::NotEncrypted)),
        Ok(_) => panic!("truncated header decrypted"),
    }
}

#[test]
fn tampered_ciphertext_fails() {
    let mut sealed = encrypt(b"payload", "pw").ok().unwrap();
    let last = sealed.len() - 1;
    sealed[last] ^= 1;
    assert!(matches!(decrypt(&sealed, "pw"), Err(VaultError::DecryptFailed)));
}

#[test]
fn each_encryption_draws_fresh_salt_and_nonce() {
    let a = encrypt(b"same", "pw").ok().unwrap();
    let b = encrypt(b"same", "pw").ok().unwrap();
    assert_ne!(&a[8..36], &b[8..36]);
    assert_ne!(a, b);
}

#[test]
fn error_kinds_and_messages() {
    let kdf = VaultError::Kdf("salt is too short".to_string());
    assert_eq!(kdf.kind(), ErrorKind::Other);
    assert_eq!(kdf.message(), "Argon2 KDF: salt is too short");
    assert_eq!(VaultError::Encrypt.kind(), ErrorKind::Other);
    assert_eq!(VaultError::Encrypt.message(), "AES-GCM encrypt: aead::Error");
    assert_eq!(VaultError::PasswordRequired.kind(), ErrorKind::PermissionDenied);
}
