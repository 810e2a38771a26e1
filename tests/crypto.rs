use rvault::crypto::{decrypt, derive_key, encrypt, encrypt_with, NONCE_LEN, SALT_LEN, TAG_LEN};
use rvault::error::{SizeError, VaultError};

#[test]
fn encrypt_then_decrypt_returns_plaintext() {
    let (salt, nonce, ct) = encrypt("pw-one", b"hello vault").unwrap();
    assert_eq!(salt.len(), SALT_LEN);
    assert_eq!(nonce.len(), NONCE_LEN);
    assert_eq!(ct.len(), 11 + TAG_LEN);
    assert_ne!(&ct[..11], b"hello vault");
    assert_eq!(decrypt("pw-one", &salt, &nonce, &ct).unwrap(), b"hello vault".to_vec());
}

#[test]
fn decrypt_with_wrong_password_is_authentication_error() {
    let (salt, nonce, ct) = encrypt("right", b"data").unwrap();
    assert_eq!(decrypt("wrong", &salt, &nonce, &ct).unwrap_err(), VaultError::Authentication);
}

#[test]
fn flipped_ciphertext_bit_fails_authentication() {
    let salt = [3u8; 16];
    let nonce = [4u8; 24];
    let mut ct = encrypt_with("pw", &salt, &nonce, b"payload").unwrap();
    ct[2] ^= 0x01;
    assert_eq!(decrypt("pw", &salt, &nonce, &ct).unwrap_err(), VaultError::Authentication);
}

#[test]
fn flipped_nonce_bit_fails_authentication() {
    let salt = [3u8; 16];
    let mut nonce = [4u8; 24];
    let ct = encrypt_with("pw", &salt, &nonce, b"payload").unwrap();
    nonce[23] ^= 0x80;
    assert_eq!(decrypt("pw", &salt, &nonce, &ct).unwrap_err(), VaultError::Authentication);
}

#[test]
fn flipped_salt_bit_fails_authentication() {
    let mut salt = [3u8; 16];
    let nonce = [4u8; 24];
    let ct = encrypt_with("pw", &salt, &nonce, b"payload").unwrap();
    salt[0] ^= 0x01;
    assert_eq!(decrypt("pw", &salt, &nonce, &ct).unwrap_err(), VaultError::Authentication);
}

#[test]
fn encrypt_with_is_deterministic() {
    let salt = [1u8; 16];
    let nonce = [2u8; 24];
    let a = encrypt_with("pw", &salt, &nonce, b"same").unwrap();
    let b = encrypt_with("pw", &salt, &nonce, b"same").unwrap();
    assert_eq!(a, b);
    assert_eq!(a.len(), 4 + TAG_LEN);
}

#[test]
fn encrypt_draws_fresh_salt_and_nonce() {
    let (s1, n1, c1) = encrypt("pw", b"same").unwrap();
    let (s2, n2, c2) = encrypt("pw", b"same").unwrap();
    assert_ne!(s1, s2);
    assert_ne!(n1, n2);
    assert_ne!(c1, c2);
}

#[test]
fn short_salt_is_derivation_error() {
    assert!(matches!(derive_key("pw", &[0u8; 7]), Err(VaultError::Derivation)));
    assert!(derive_key("pw", &[0u8; 8]).is_ok());
}

#[test]
fn decrypt_with_short_salt_is_derivation_error() {
    assert_eq!(decrypt("pw", &[0u8; 4], &[0u8; 24], &[0u8; 32]).unwrap_err(), VaultError::Derivation);
}

#[test]
fn decrypt_with_wrong_nonce_length_is_authentication_error() {
    assert_eq!(decrypt("pw", &[0u8; 16], &[0u8; 23], &[0u8; 32]).unwrap_err(), VaultError::Authentication);
}

#[test]
fn encrypt_with_wrong_nonce_length_is_size_error() {
    assert_eq!(
        encrypt_with("pw", &[0u8; 16], &[0u8; 12], b"x").unwrap_err(),
        VaultError::Size(SizeError::Nonce)
    );
}

#[test]
fn decrypt_of_too_short_ciphertext_fails() {
    assert_eq!(decrypt("pw", &[0u8; 16], &[0u8; 24], &[0u8; 15]).unwrap_err(), VaultError::Authentication);
}

#[test]
fn key_depends_on_salt_and_password() {
    let nonce = [2u8; 24];
    let a = encrypt_with("pw", &[1u8; 16], &nonce, b"same").unwrap();
    let b = encrypt_with("pw", &[9u8; 16], &nonce, b"same").unwrap();
    let c = encrypt_with("other", &[1u8; 16], &nonce, b"same").unwrap();
    assert_ne!(a, b);
    assert_ne!(a, c);
}
