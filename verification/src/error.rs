//! The library's errors.

use vstd::prelude::*;

verus! {

/// The class of an error, as the I/O layer reports it.
#[derive(PartialEq, Eq, Structural, Clone, Copy, Debug)]
pub enum ErrorKind {
    /// Something failed that is no fault of the data (key derivation, encryption).
    Other,
    /// The data is not what it should be.
    InvalidData,
    /// A password is missing or wrong.
    PermissionDenied,
}

/// What can go wrong when files are sealed or opened.
pub enum VaultError {
    /// The data does not start with the encrypted-file header.
    NotEncrypted,
    /// Argon2 refused to derive a key; its message.
    Kdf(String),
    /// AES-GCM refused to encrypt.
    Encrypt,
    /// Authentication failed: wrong password or corrupt file.
    DecryptFailed,
    /// The file is encrypted and no password was given.
    PasswordRequired,
}

impl VaultError {
    /// The class of the error.
    pub fn kind(&self) -> (k: ErrorKind)
        ensures
            k == match self {
                VaultError::NotEncrypted => ErrorKind::InvalidData,
                VaultError::Kdf(_) => ErrorKind::Other,
                VaultError::Encrypt => ErrorKind::Other,
                VaultError::DecryptFailed => ErrorKind::PermissionDenied,
                VaultError::PasswordRequired => ErrorKind::PermissionDenied,
            },
    {
        match self {
            VaultError::NotEncrypted => ErrorKind::InvalidData,
            VaultError::Kdf(_) => ErrorKind::Other,
            VaultError::Encrypt => ErrorKind::Other,
            VaultError::DecryptFailed => ErrorKind::PermissionDenied,
            VaultError::PasswordRequired => ErrorKind::PermissionDenied,
        }
    }

    /// The message shown to the user.
    pub fn message(&self) -> (m: String)
        ensures
            m@ == match self {
                VaultError::NotEncrypted => "not a KeyVault encrypted file"@,
                VaultError::Kdf(text) => "Argon2 KDF: "@ + text@,
                VaultError::Encrypt => "AES-GCM encrypt: aead::Error"@,
                VaultError::DecryptFailed => "Decryption failed (wrong password or corrupt file)"@,
                VaultError::PasswordRequired => "File is encrypted; password required"@,
            },
    {
        match self {
            VaultError::NotEncrypted => String::from_str("not a KeyVault encrypted file"),
            VaultError::Kdf(text) => {
                let mut m = String::from_str("Argon2 KDF: ");
                m.append(text.as_str());
                m
            },
            VaultError::Encrypt => String::from_str("AES-GCM encrypt: aead::Error"),
            VaultError::DecryptFailed => String::from_str(
                "Decryption failed (wrong password or corrupt file)",
            ),
            VaultError::PasswordRequired => String::from_str(
                "File is encrypted; password required",
            ),
        }
    }
}

} // verus!
