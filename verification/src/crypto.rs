//! Password-based encryption of export and backup files.
//!
//! Layout of an encrypted file:
//!   MAGIC (8 bytes "KVENC1\0\0") | salt (16) | nonce (12) | ciphertext + tag
//!
//! Key derivation: Argon2id with default parameters, 32-byte key.
//! Authenticated encryption: AES-256-GCM.

use vstd::prelude::*;
use vstd::string::StringSliceAdditionalSpecFns;
use crate::error::VaultError;
use aes_gcm::aead::{Aead, AeadCore, KeyInit};
use rand::RngCore;

verus! {

/// The eight bytes every encrypted file starts with: "KVENC1" and two zero bytes.
pub open spec fn magic_spec() -> Seq<u8> {
    seq![0x4bu8, 0x56u8, 0x45u8, 0x4eu8, 0x43u8, 0x31u8, 0u8, 0u8]
}

/// Whether `data` starts with the magic prefix.
pub open spec fn has_magic(data: Seq<u8>) -> bool {
    data.len() >= 8 && data.subrange(0, 8) == magic_spec()
}

/// The magic prefix as bytes.
pub fn magic() -> (m: [u8; 8])
    ensures
        m@ == magic_spec(),
{
    let m: [u8; 8] = [0x4b, 0x56, 0x45, 0x4e, 0x43, 0x31, 0, 0];
    assert(m@ =~= magic_spec());
    m
}

/// True when `data` looks like an encrypted file, i.e. starts with the magic prefix.
pub fn looks_encrypted(data: &[u8]) -> (r: bool)
    ensures
        r == has_magic(data@),
{
    if data.len() < 8 {
        return false;
    }
    let m = magic();
    let mut i: usize = 0;
    while i < 8
        invariant
            0 <= i <= 8,
            data@.len() >= 8,
            m@ == magic_spec(),
            forall|j: int| 0 <= j < i ==> data@[j] == m@[j],
        decreases 8 - i,
    {
        if data[i] != m[i] {
            assert(data@.subrange(0, 8)[i as int] != magic_spec()[i as int]);
            return false;
        }
        i = i + 1;
    }
    assert(data@.subrange(0, 8) =~= magic_spec());
    true
}


// ---------------------------------------------------------------------------
// Layout
// ---------------------------------------------------------------------------

/// Length of the salt that keys are derived with.
pub const SALT_LEN: usize = 16;
/// Length of an AES-GCM nonce.
pub const NONCE_LEN: usize = 12;
/// Length of the header: magic, salt and nonce.
pub const HEADER_LEN: usize = 36;

/// The salt stored in an encrypted file.
pub open spec fn salt_of(data: Seq<u8>) -> Seq<u8> {
    data.subrange(8, 24)
}

/// The nonce stored in an encrypted file.
pub open spec fn nonce_of(data: Seq<u8>) -> Seq<u8> {
    data.subrange(24, 36)
}

/// The ciphertext (with tag) stored in an encrypted file.
pub open spec fn ciphertext_of(data: Seq<u8>) -> Seq<u8> {
    data.subrange(36, data.len() as int)
}

/// Whether `data` is long enough to hold a header and starts with the magic.
pub open spec fn has_header(data: Seq<u8>) -> bool {
    data.len() >= 36 && has_magic(data)
}

// ---------------------------------------------------------------------------
// Names for what the cryptographic crates compute
// ---------------------------------------------------------------------------

/// The 32-byte key that Argon2id with default parameters derives from a
/// password and a salt (`argon2::Argon2::hash_password_into`).
pub uninterp spec fn argon2id_key(password: Seq<u8>, salt: Seq<u8>) -> Seq<u8>;

/// The ciphertext with appended tag that AES-256-GCM gives for a key, a nonce
/// and a plaintext, with no associated data (`aes_gcm::Aes256Gcm`, `Aead::encrypt`).
pub uninterp spec fn aes256gcm_seal(key: Seq<u8>, nonce: Seq<u8>, plaintext: Seq<u8>) -> Seq<u8>;

/// What AES-256-GCM decryption gives for a key, a nonce and a ciphertext with
/// tag: the plaintext, or nothing when the tag does not check out
/// (`Aead::decrypt`).
pub uninterp spec fn aes256gcm_open(key: Seq<u8>, nonce: Seq<u8>, ciphertext: Seq<u8>) -> Option<
    Seq<u8>,
>;

/// Whether `data` is `plaintext` encrypted under `password`: a header with
/// some salt and nonce, then the AES-GCM ciphertext under the key derived
/// from the password and that salt.
pub open spec fn seals(data: Seq<u8>, plaintext: Seq<u8>, password: Seq<u8>) -> bool {
    has_header(data) && ciphertext_of(data) == aes256gcm_seal(
        argon2id_key(password, salt_of(data)),
        nonce_of(data),
        plaintext,
    )
}

// ---------------------------------------------------------------------------
// Trusted calls
// ---------------------------------------------------------------------------

#[verifier::external_type_specification]
#[verifier::external_body]
pub struct ExArgon2Error(argon2::Error);

#[verifier::external_type_specification]
#[verifier::external_body]
pub struct ExAeadError(aes_gcm::Error);

/// Calls `argon2::Argon2::default().hash_password_into` with a 32-byte output.
/// From the crate's source: with default parameters and a 32-byte output the
/// only failures are a password longer than 2^32 - 1 bytes and a salt shorter
/// than 8 or longer than 2^32 - 1 bytes; otherwise the output is the derived key,
/// a function of password and salt.
#[verifier::external_body]
fn argon2_derive(password: &[u8], salt: &[u8]) -> (r: Result<Vec<u8>, argon2::Error>)
    ensures
        r is Ok <==> (password@.len() <= 0xffff_ffff && 8 <= salt@.len() <= 0xffff_ffff),
        r matches Ok(k) ==> k@ == argon2id_key(password@, salt@) && k@.len() == 32,
{
    let mut key = [0u8; 32];
    argon2::Argon2::default().hash_password_into(password, salt, &mut key).map(|_| key.to_vec())
}

/// The text of an Argon2 error (its `Display`).  Nothing is claimed of it.
#[verifier::external_body]
fn argon2_error_text(e: &argon2::Error) -> String {
    e.to_string()
}

/// Calls `Aead::encrypt` of `aes_gcm::Aes256Gcm` with no associated data.
/// From the crate's source: it fails only for a plaintext longer than 2^36
/// bytes, and otherwise returns the ciphertext followed by the 16-byte tag.
/// `Key::from_slice` and `Nonce::from_slice` panic unless the lengths are 32
/// and 12, hence the precondition.
#[verifier::external_body]
fn aes_gcm_seal(key: &[u8], nonce: &[u8], plaintext: &[u8]) -> (r: Result<Vec<u8>, aes_gcm::Error>)
    requires
        key@.len() == 32,
        nonce@.len() == 12,
    ensures
        r is Ok <==> plaintext@.len() <= 0x10_0000_0000,
        r matches Ok(c) ==> c@ == aes256gcm_seal(key@, nonce@, plaintext@) && c@.len()
            == plaintext@.len() + 16,
{
    let cipher = aes_gcm::Aes256Gcm::new(aes_gcm::Key::<aes_gcm::Aes256Gcm>::from_slice(key));
    cipher.encrypt(aes_gcm::Nonce::from_slice(nonce), plaintext)
}

/// Calls `Aead::decrypt` of `aes_gcm::Aes256Gcm` with no associated data.
/// Claimed: the result is a function of key, nonce and ciphertext
/// (`aes256gcm_open`), and, from the crate's source, decrypting what
/// `Aead::encrypt` produced under the same key and nonce gives the plaintext
/// back (the tag is recomputed the same way and the keystream is the same).
#[verifier::external_body]
fn aes_gcm_open(key: &[u8], nonce: &[u8], ciphertext: &[u8]) -> (r: Result<Vec<u8>, aes_gcm::Error>)
    requires
        key@.len() == 32,
        nonce@.len() == 12,
    ensures
        r matches Ok(p) ==> aes256gcm_open(key@, nonce@, ciphertext@) == Some(p@),
        r is Err ==> aes256gcm_open(key@, nonce@, ciphertext@) is None,
        r matches Ok(x) ==> forall|p: Seq<u8>|
            #[trigger] aes256gcm_seal(key@, nonce@, p) == ciphertext@ && p.len()
                <= 0x10_0000_0000 ==> x@ == p,
        r is Err ==> forall|p: Seq<u8>|
            #[trigger] aes256gcm_seal(key@, nonce@, p) == ciphertext@ ==> p.len()
                > 0x10_0000_0000,
{
    let cipher = aes_gcm::Aes256Gcm::new(aes_gcm::Key::<aes_gcm::Aes256Gcm>::from_slice(key));
    cipher.decrypt(aes_gcm::Nonce::from_slice(nonce), ciphertext)
}

/// Fills a 16-byte salt from the operating system's generator
/// (`rand::rngs::OsRng::fill_bytes`, which panics if the system generator
/// fails).  Random: only the length is promised.
#[verifier::external_body]
fn random_salt() -> (s: Vec<u8>)
    ensures
        s@.len() == 16,
{
    let mut salt = [0u8; 16];
    rand::rngs::OsRng.fill_bytes(&mut salt);
    salt.to_vec()
}

/// A fresh 12-byte nonce from `AeadCore::generate_nonce` with the operating
/// system's generator.  Random: only the length is promised.
#[verifier::external_body]
fn random_nonce() -> (n: Vec<u8>)
    ensures
        n@.len() == 12,
{
    aes_gcm::Aes256Gcm::generate_nonce(&mut aes_gcm::aead::OsRng).to_vec()
}

// ---------------------------------------------------------------------------
// Key derivation, framing, encryption, decryption
// ---------------------------------------------------------------------------

/// Derives the 32-byte file key from a password and a salt with Argon2id.
pub fn derive_key(password: &str, salt: &[u8]) -> (r: Result<Vec<u8>, VaultError>)
    ensures
        r is Ok <==> (password.spec_bytes().len() <= 0xffff_ffff && 8 <= salt@.len()
            <= 0xffff_ffff),
        r matches Ok(k) ==> k@ == argon2id_key(password.spec_bytes(), salt@) && k@.len() == 32,
        r matches Err(e) ==> e is Kdf,
{
    match argon2_derive(password.as_bytes(), salt) {
        Ok(k) => Ok(k),
        Err(e) => Err(VaultError::Kdf(argon2_error_text(&e))),
    }
}

/// Lays out an encrypted file: magic, salt, nonce, ciphertext.
pub fn frame_encrypted(salt: &[u8], nonce: &[u8], ciphertext: &[u8]) -> (out: Vec<u8>)
    ensures
        out@ == magic_spec() + salt@ + nonce@ + ciphertext@,
{
    let m = magic();
    let mut out: Vec<u8> = Vec::new();
    append_bytes(&mut out, &m);
    append_bytes(&mut out, salt);
    append_bytes(&mut out, nonce);
    append_bytes(&mut out, ciphertext);
    out
}

/// Appends the bytes of `src` to `dst`.
fn append_bytes(dst: &mut Vec<u8>, src: &[u8])
    ensures
        final(dst)@ == old(dst)@ + src@,
{
    let mut i: usize = 0;
    while i < src.len()
        invariant
            0 <= i <= src@.len(),
            dst@ == old(dst)@ + src@.take(i as int),
        decreases src.len() - i,
    {
        dst.push(src[i]);
        i = i + 1;
        assert(dst@ =~= old(dst)@ + src@.take(i as int));
    }
    assert(src@.take(src@.len() as int) =~= src@);
}

/// A framed file's parts are the salt, nonce and ciphertext it was framed with.
pub proof fn lemma_sealed_file_parts(salt: Seq<u8>, nonce: Seq<u8>, ct: Seq<u8>)
    requires
        salt.len() == 16,
        nonce.len() == 12,
    ensures
        has_header(magic_spec() + salt + nonce + ct),
        salt_of(magic_spec() + salt + nonce + ct) == salt,
        nonce_of(magic_spec() + salt + nonce + ct) == nonce,
        ciphertext_of(magic_spec() + salt + nonce + ct) == ct,
{
    let d = magic_spec() + salt + nonce + ct;
    assert(d.subrange(0, 8) =~= magic_spec());
    assert(salt_of(d) =~= salt);
    assert(nonce_of(d) =~= nonce);
    assert(ciphertext_of(d) =~= ct);
}

/// Encrypts `plaintext` under `password`: a random salt, the Argon2id key for
/// it, a random nonce, AES-256-GCM; the result is magic, salt, nonce and
/// ciphertext.  It fails exactly when the password is longer than Argon2
/// accepts (`Kdf`) or the plaintext longer than AES-GCM accepts (`Encrypt`).
pub fn encrypt(plaintext: &[u8], password: &str) -> (r: Result<Vec<u8>, VaultError>)
    ensures
        password.spec_bytes().len() > 0xffff_ffff ==> r matches Err(VaultError::Kdf(_)),
        password.spec_bytes().len() <= 0xffff_ffff && plaintext@.len() > 0x10_0000_0000 ==> r
            matches Err(VaultError::Encrypt),
        password.spec_bytes().len() <= 0xffff_ffff && plaintext@.len() <= 0x10_0000_0000 ==> r
            is Ok,
        r matches Ok(out) ==> seals(out@, plaintext@, password.spec_bytes()) && salt_of(out@).len()
            == 16 && nonce_of(out@).len() == 12,
        r matches Ok(out) ==> out@.len() == 36 + plaintext@.len() + 16,
{
    let salt = random_salt();
    let key = derive_key(password, &salt)?;
    let nonce = random_nonce();
    let ct = match aes_gcm_seal(&key, &nonce, plaintext) {
        Ok(c) => c,
        Err(_) => {
            return Err(VaultError::Encrypt);
        },
    };
    let out = frame_encrypted(&salt, &nonce, &ct);
    proof {
        lemma_sealed_file_parts(salt@, nonce@, ct@);
    }
    Ok(out)
}

/// Copies `data[from..to]` into a new vector.
fn copy_range(data: &[u8], from: usize, to: usize) -> (r: Vec<u8>)
    requires
        from <= to <= data@.len(),
    ensures
        r@ == data@.subrange(from as int, to as int),
{
    let mut r: Vec<u8> = Vec::new();
    let mut i: usize = from;
    while i < to
        invariant
            from <= i <= to <= data@.len(),
            r@ == data@.subrange(from as int, i as int),
        decreases to - i,
    {
        r.push(data[i]);
        i = i + 1;
        assert(r@ =~= data@.subrange(from as int, i as int));
    }
    r
}

/// Decrypts a file that `encrypt` wrote.  Data without the header is
/// `NotEncrypted`; a password Argon2 refuses is `Kdf`; a failed
/// authentication is `DecryptFailed`; otherwise the plaintext.  Whatever
/// `encrypt` produced for a plaintext under a password decrypts to that
/// plaintext under the same password.
pub fn decrypt(data: &[u8], password: &str) -> (r: Result<Vec<u8>, VaultError>)
    ensures
        !has_header(data@) ==> r matches Err(VaultError::NotEncrypted),
        has_header(data@) && password.spec_bytes().len() > 0xffff_ffff ==> r matches Err(
            VaultError::Kdf(_),
        ),
        has_header(data@) && password.spec_bytes().len() <= 0xffff_ffff ==> match aes256gcm_open(
            argon2id_key(password.spec_bytes(), salt_of(data@)),
            nonce_of(data@),
            ciphertext_of(data@),
        ) {
            Some(p) => r matches Ok(x) && x@ == p,
            None => r matches Err(VaultError::DecryptFailed),
        },
        forall|p: Seq<u8>|
            seals(data@, p, password.spec_bytes()) && p.len() <= 0x10_0000_0000
                && password.spec_bytes().len() <= 0xffff_ffff ==> (r matches Ok(x) && x@ == p),
{
    if data.len() < HEADER_LEN || !looks_encrypted(data) {
        return Err(VaultError::NotEncrypted);
    }
    let salt = copy_range(data, 8, 8 + SALT_LEN);
    let nonce = copy_range(data, 8 + SALT_LEN, HEADER_LEN);
    let ct = copy_range(data, HEADER_LEN, data.len());
    let key = derive_key(password, &salt)?;
    match aes_gcm_open(&key, &nonce, &ct) {
        Ok(p) => Ok(p),
        Err(_) => Err(VaultError::DecryptFailed),
    }
}

} // verus!
