//! Password-based key derivation and authenticated encryption.
use crate::error::{SizeError, VaultError};
use argon2::Argon2;
use chacha20poly1305::aead::rand_core::RngCore;
use chacha20poly1305::aead::{Aead, OsRng};
use chacha20poly1305::{Key, KeyInit, XChaCha20Poly1305, XNonce};
use vstd::prelude::*;
use vstd::string::StringSliceAdditionalSpecFns;
use zeroize::Zeroize;

verus! {

/// Length of the salt drawn for each encryption.
pub const SALT_LEN: usize = 16;

/// Length of the cipher's nonce.
pub const NONCE_LEN: usize = 24;

/// Length of the authentication tag appended to every ciphertext.
pub const TAG_LEN: usize = 16;

/// The longest password the key derivation accepts.
pub const MAX_PASSWORD_LEN: usize = 4294967295;

/// The shortest salt the key derivation accepts.
pub const MIN_SALT_LEN: usize = 8;

/// The longest salt the key derivation accepts.
pub const MAX_SALT_LEN: usize = 4294967295;

#[verifier::external_type_specification]
#[verifier::external_body]
pub struct ExArgon2Error(argon2::Error);

#[verifier::external_type_specification]
#[verifier::external_body]
pub struct ExAeadError(chacha20poly1305::aead::Error);

#[verifier::external_type_specification]
#[verifier::external_body]
pub struct ExRandError(chacha20poly1305::aead::rand_core::Error);

/// The key that Argon2id with its default parameters derives from a
/// password and a salt.
pub uninterp spec fn argon2_key(password: Seq<u8>, salt: Seq<u8>) -> Seq<u8>;

/// The output of XChaCha20-Poly1305 (no associated data) for a key, a nonce
/// and a message: the encrypted message followed by its tag.
pub uninterp spec fn xchacha_seal(key: Seq<u8>, nonce: Seq<u8>, plaintext: Seq<u8>) -> Seq<u8>;

/// Whether the key derivation accepts a password and salt of these lengths.
pub open spec fn kdf_accepts(password: Seq<u8>, salt: Seq<u8>) -> bool {
    &&& password.len() <= MAX_PASSWORD_LEN
    &&& MIN_SALT_LEN <= salt.len() <= MAX_SALT_LEN
}

/// The cipher refuses messages of 2^32 - 1 or more 64-byte blocks.
pub open spec fn max_message_len() -> nat {
    64 * 4294967295
}

/// `ciphertext` is what sealing `plaintext` under `key` and `nonce` gives.
pub open spec fn seals_to(key: Seq<u8>, nonce: Seq<u8>, plaintext: Seq<u8>, ciphertext: Seq<u8>) -> bool {
    &&& plaintext.len() < max_message_len()
    &&& xchacha_seal(key, nonce, plaintext) == ciphertext
}

/// Relies on argon2's `Argon2::hash_password_into` with `Argon2::default()`
/// (Argon2id, 19 MiB, two passes, one lane): with a 32-byte output it fails
/// only on a password longer than `MAX_PASSWORD_LEN` or a salt outside
/// `MIN_SALT_LEN..=MAX_SALT_LEN`, and otherwise fills `out` with a digest of
/// the password and salt alone.
#[verifier::external_body]
fn argon2_hash(password: &[u8], salt: &[u8], out: &mut [u8; 32]) -> (r: Result<(), argon2::Error>)
    ensures
        r is Ok <==> kdf_accepts(password@, salt@),
        r is Ok ==> final(out)@ == argon2_key(password@, salt@),
{
    Argon2::default().hash_password_into(password, salt, out)
}

/// Relies on zeroize's `Zeroize` for byte arrays: each byte is overwritten
/// with zero by a volatile write.
#[verifier::external_body]
fn wipe(bytes: &mut [u8; 32])
    ensures
        final(bytes)@ == Seq::new(32, |i: int| 0u8),
    opens_invariants none
    no_unwind
{
    bytes.zeroize();
}

/// Relies on rand_core's `OsRng::try_fill_bytes`: on success the buffer of
/// `len` bytes is filled from the operating system's random source. Nothing
/// is known of the values.
#[verifier::external_body]
fn random_bytes(len: usize) -> (r: Result<Vec<u8>, chacha20poly1305::aead::rand_core::Error>)
    ensures
        r is Ok ==> r->Ok_0@.len() == len,
{
    let mut buf = vec![0u8; len];
    OsRng.try_fill_bytes(&mut buf).map(|_| buf)
}

/// Relies on chacha20poly1305's `XChaCha20Poly1305::encrypt` with no
/// associated data: it fails only on a message of 2^32 - 1 or more 64-byte
/// blocks, and otherwise returns the encrypted message followed by a
/// 16-byte tag, a function of key, nonce and message alone.
/// `XNonce::from_slice` needs a 24-byte nonce.
#[verifier::external_body]
fn aead_seal(key: &[u8; 32], nonce: &[u8], plaintext: &[u8]) -> (r: Result<Vec<u8>, chacha20poly1305::aead::Error>)
    requires
        nonce@.len() == NONCE_LEN,
    ensures
        r is Ok <==> plaintext@.len() < max_message_len(),
        r is Ok ==> r->Ok_0@ == xchacha_seal(key@, nonce@, plaintext@) && r->Ok_0@.len()
            == plaintext@.len() + TAG_LEN,
{
    XChaCha20Poly1305::new(Key::from_slice(key)).encrypt(XNonce::from_slice(nonce), plaintext)
}

/// Relies on chacha20poly1305's `XChaCha20Poly1305::decrypt` with no
/// associated data. For a fixed key and nonce the keystream is fixed and the
/// tag is a function of the encrypted bytes, so encryption is one-to-one and
/// decryption is its exact inverse: it returns the message whose encryption
/// is `ciphertext` (16 bytes shorter), and fails when there is none.
/// `XNonce::from_slice` needs a 24-byte nonce.
#[verifier::external_body]
fn aead_open(key: &[u8; 32], nonce: &[u8], ciphertext: &[u8]) -> (r: Result<Vec<u8>, chacha20poly1305::aead::Error>)
    requires
        nonce@.len() == NONCE_LEN,
    ensures
        r is Ok ==> seals_to(key@, nonce@, r->Ok_0@, ciphertext@) && r->Ok_0@.len() + TAG_LEN
            == ciphertext@.len(),
        forall|p: Seq<u8>| #[trigger]
            seals_to(key@, nonce@, p, ciphertext@) ==> r is Ok && r->Ok_0@ == p,
{
    XChaCha20Poly1305::new(Key::from_slice(key)).decrypt(XNonce::from_slice(nonce), ciphertext)
}

/// Key material derived from a password; it is overwritten with zeros when
/// dropped, on every path out of the scope that holds it.
pub struct DerivedKey {
    key: [u8; 32],
}

impl View for DerivedKey {
    type V = Seq<u8>;

    closed spec fn view(&self) -> Seq<u8> {
        self.key@
    }
}

impl Drop for DerivedKey {
    fn drop(&mut self)
        opens_invariants none
        no_unwind
    {
        wipe(&mut self.key);
    }
}

/// Derives the cipher key for `password` and `salt`.
pub fn derive_key(password: &str, salt: &[u8]) -> (r: Result<DerivedKey, VaultError>)
    ensures
        r is Ok <==> kdf_accepts(password.spec_bytes(), salt@),
        r is Ok ==> r->Ok_0@ == argon2_key(password.spec_bytes(), salt@),
        r is Err ==> r == Err::<DerivedKey, VaultError>(VaultError::Derivation),
{
    let mut dk = DerivedKey { key: [0u8; 32] };
    match argon2_hash(password.as_bytes(), salt, &mut dk.key) {
        Ok(()) => Ok(dk),
        Err(_) => Err(VaultError::Derivation),
    }
}

/// Encrypts `plaintext` under the key derived from `password` and `salt`,
/// with the given nonce.
pub fn encrypt_with(password: &str, salt: &[u8], nonce: &[u8], plaintext: &[u8]) -> (r: Result<Vec<u8>, VaultError>)
    ensures
        nonce@.len() != NONCE_LEN ==> r == Err::<Vec<u8>, VaultError>(VaultError::Size(SizeError::Nonce)),
        nonce@.len() == NONCE_LEN && !kdf_accepts(password.spec_bytes(), salt@) ==> r == Err::<
            Vec<u8>,
            VaultError,
        >(VaultError::Derivation),
        nonce@.len() == NONCE_LEN && kdf_accepts(password.spec_bytes(), salt@) && plaintext@.len()
            >= max_message_len() ==> r == Err::<Vec<u8>, VaultError>(VaultError::Size(SizeError::Ciphertext)),
        nonce@.len() == NONCE_LEN && kdf_accepts(password.spec_bytes(), salt@) && plaintext@.len()
            < max_message_len() ==> r is Ok && seals_to(
            argon2_key(password.spec_bytes(), salt@),
            nonce@,
            plaintext@,
            r->Ok_0@,
        ) && r->Ok_0@.len() == plaintext@.len() + TAG_LEN,
{
    if nonce.len() != NONCE_LEN {
        return Err(VaultError::Size(SizeError::Nonce));
    }
    let dk = derive_key(password, salt)?;
    match aead_seal(&dk.key, nonce, plaintext) {
        Ok(c) => Ok(c),
        Err(_) => Err(VaultError::Size(SizeError::Ciphertext)),
    }
}

/// Encrypts `plaintext` under a key derived from `password` with a fresh
/// random salt, and a fresh random nonce. Returns (salt, nonce, ciphertext).
pub fn encrypt(password: &str, plaintext: &[u8]) -> (r: Result<(Vec<u8>, Vec<u8>, Vec<u8>), VaultError>)
    ensures
        r is Ok ==> {
            let (salt, nonce, ct) = r->Ok_0;
            &&& salt@.len() == SALT_LEN
            &&& nonce@.len() == NONCE_LEN
            &&& ct@.len() == plaintext@.len() + TAG_LEN
            &&& kdf_accepts(password.spec_bytes(), salt@)
            &&& seals_to(argon2_key(password.spec_bytes(), salt@), nonce@, plaintext@, ct@)
        },
        r is Err ==> r == Err::<(Vec<u8>, Vec<u8>, Vec<u8>), VaultError>(VaultError::RandomSource)
            || (password.spec_bytes().len() > MAX_PASSWORD_LEN && r == Err::<
            (Vec<u8>, Vec<u8>, Vec<u8>),
            VaultError,
        >(VaultError::Derivation)) || (plaintext@.len() >= max_message_len() && r == Err::<
            (Vec<u8>, Vec<u8>, Vec<u8>),
            VaultError,
        >(VaultError::Size(SizeError::Ciphertext))),
{
    let salt = match random_bytes(SALT_LEN) {
        Ok(s) => s,
        Err(_) => return Err(VaultError::RandomSource),
    };
    let nonce = match random_bytes(NONCE_LEN) {
        Ok(n) => n,
        Err(_) => return Err(VaultError::RandomSource),
    };
    let ciphertext = encrypt_with(password, salt.as_slice(), nonce.as_slice(), plaintext)?;
    Ok((salt, nonce, ciphertext))
}

/// Decrypts `ciphertext` under the key derived from `password` and `salt`.
/// Once the key is derived, every failure is the one generic
/// authentication error, whatever its cause.
pub fn decrypt(password: &str, salt: &[u8], nonce: &[u8], ciphertext: &[u8]) -> (r: Result<Vec<u8>, VaultError>)
    ensures
        !kdf_accepts(password.spec_bytes(), salt@) ==> r == Err::<Vec<u8>, VaultError>(
            VaultError::Derivation,
        ),
        kdf_accepts(password.spec_bytes(), salt@) ==> r is Ok || r == Err::<Vec<u8>, VaultError>(
            VaultError::Authentication,
        ),
        r is Ok ==> nonce@.len() == NONCE_LEN && seals_to(
            argon2_key(password.spec_bytes(), salt@),
            nonce@,
            r->Ok_0@,
            ciphertext@,
        ),
        forall|p: Seq<u8>|
            kdf_accepts(password.spec_bytes(), salt@) && nonce@.len() == NONCE_LEN && #[trigger] seals_to(
                argon2_key(password.spec_bytes(), salt@),
                nonce@,
                p,
                ciphertext@,
            ) ==> r is Ok && r->Ok_0@ == p,
{
    let dk = derive_key(password, salt)?;
    if nonce.len() != NONCE_LEN {
        return Err(VaultError::Authentication);
    }
    match aead_open(&dk.key, nonce, ciphertext) {
        Ok(p) => Ok(p),
        Err(_) => Err(VaultError::Authentication),
    }
}

} // verus!
