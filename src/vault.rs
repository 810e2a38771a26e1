//! The vault's envelope: plaintext bytes in, container bytes out, and back.
//! Reading and writing the file, and turning the plaintext into a secret
//! map, are left to the caller.
use crate::crypto::{
    argon2_key, decrypt, encrypt, kdf_accepts, seals_to, MAX_PASSWORD_LEN, NONCE_LEN, SALT_LEN,
    TAG_LEN,
};
use crate::error::{SizeError, VaultError};
use crate::format::{
    decode, decode_spec, encode, encode_spec, lemma_decode_encode, MAX_LONG_FIELD, MAX_SHORT_FIELD,
};
use vstd::prelude::*;
use vstd::string::StringSliceAdditionalSpecFns;

verus! {

/// `raw` is a container that `password` opens to `plaintext`: it decodes,
/// the key derivation accepts its salt, its nonce has the cipher's length,
/// and its ciphertext is the sealing of `plaintext` under the derived key.
pub open spec fn opens_as(password: Seq<u8>, raw: Seq<u8>, plaintext: Seq<u8>) -> bool {
    match decode_spec(raw) {
        Ok((_, salt, nonce, ciphertext)) => {
            &&& kdf_accepts(password, salt)
            &&& nonce.len() == NONCE_LEN
            &&& seals_to(argon2_key(password, salt), nonce, plaintext, ciphertext)
        },
        Err(_) => false,
    }
}

/// The plaintext of an empty secret map, the JSON object `{}`.
pub open spec fn empty_map_bytes() -> Seq<u8> {
    seq![123u8, 125u8]
}

/// Encrypts `plaintext` under `password` with a fresh salt and nonce and
/// lays the result out as a container.
pub fn seal_vault(password: &str, plaintext: &[u8]) -> (r: Result<Vec<u8>, VaultError>)
    ensures
        r is Ok ==> opens_as(password.spec_bytes(), r->Ok_0@, plaintext@),
        r is Ok ==> exists|salt: Seq<u8>, nonce: Seq<u8>, ct: Seq<u8>|
            salt.len() == SALT_LEN && nonce.len() == NONCE_LEN && #[trigger] seals_to(
                argon2_key(password.spec_bytes(), salt),
                nonce,
                plaintext@,
                ct,
            ) && r->Ok_0@ == encode_spec(salt, nonce, ct),
        r is Err ==> r == Err::<Vec<u8>, VaultError>(VaultError::RandomSource) || (
        password.spec_bytes().len() > MAX_PASSWORD_LEN && r == Err::<
            Vec<u8>,
            VaultError,
        >(VaultError::Derivation)) || (plaintext@.len() + TAG_LEN > MAX_LONG_FIELD && r == Err::<
            Vec<u8>,
            VaultError,
        >(VaultError::Size(SizeError::Ciphertext))),
{
    let (salt, nonce, ciphertext) = encrypt(password, plaintext)?;
    match encode(salt.as_slice(), nonce.as_slice(), ciphertext.as_slice()) {
        Ok(bytes) => {
            proof {
                lemma_round_trip(password.spec_bytes(), salt@, nonce@, plaintext@, ciphertext@);
            }
            Ok(bytes)
        },
        Err(e) => Err(VaultError::Size(e)),
    }
}

/// Decodes the container `raw` and decrypts its payload with `password`.
pub fn open_vault(password: &str, raw: &[u8]) -> (r: Result<Vec<u8>, VaultError>)
    ensures
        decode_spec(raw@) is Err ==> r == Err::<Vec<u8>, VaultError>(
            VaultError::Format(decode_spec(raw@)->Err_0),
        ),
        decode_spec(raw@) is Ok && !kdf_accepts(password.spec_bytes(), decode_spec(raw@)->Ok_0.1)
            ==> r == Err::<Vec<u8>, VaultError>(VaultError::Derivation),
        decode_spec(raw@) is Ok && kdf_accepts(password.spec_bytes(), decode_spec(raw@)->Ok_0.1)
            ==> r is Ok || r == Err::<Vec<u8>, VaultError>(VaultError::Authentication),
        r is Ok ==> opens_as(password.spec_bytes(), raw@, r->Ok_0@),
        forall|p: Seq<u8>| #[trigger]
            opens_as(password.spec_bytes(), raw@, p) ==> r is Ok && r->Ok_0@ == p,
{
    let file = match decode(raw) {
        Ok(f) => f,
        Err(e) => return Err(VaultError::Format(e)),
    };
    let r = decrypt(password, file.salt.as_slice(), file.nonce.as_slice(), file.ciphertext.as_slice());
    assert forall|p: Seq<u8>| #[trigger] opens_as(password.spec_bytes(), raw@, p) implies r is Ok
        && r->Ok_0@ == p by {
        assert(seals_to(argon2_key(password.spec_bytes(), file.salt@), file.nonce@, p, file.ciphertext@));
    }
    r
}

/// The container of a new vault: an empty secret map sealed under
/// `password`.
pub fn initialize_empty_vault(password: &str) -> (r: Result<Vec<u8>, VaultError>)
    ensures
        r is Ok ==> opens_as(password.spec_bytes(), r->Ok_0@, empty_map_bytes()),
        r is Err ==> r == Err::<Vec<u8>, VaultError>(VaultError::RandomSource) || (
        password.spec_bytes().len() > MAX_PASSWORD_LEN && r == Err::<
            Vec<u8>,
            VaultError,
        >(VaultError::Derivation)),
{
    let mut plaintext: Vec<u8> = Vec::new();
    plaintext.push(123u8);
    plaintext.push(125u8);
    assert(plaintext@ =~= empty_map_bytes());
    seal_vault(password, plaintext.as_slice())
}

/// Round trip: a container laid out from a salt the key derivation
/// accepts, a nonce of the cipher's length, and the sealing of `plaintext`
/// under the key derived from `password` and that salt, opens with
/// `password` to `plaintext`.
pub proof fn lemma_round_trip(
    password: Seq<u8>,
    salt: Seq<u8>,
    nonce: Seq<u8>,
    plaintext: Seq<u8>,
    ciphertext: Seq<u8>,
)
    requires
        kdf_accepts(password, salt),
        salt.len() <= MAX_SHORT_FIELD,
        nonce.len() == NONCE_LEN,
        ciphertext.len() <= MAX_LONG_FIELD,
        seals_to(argon2_key(password, salt), nonce, plaintext, ciphertext),
    ensures
        opens_as(password, encode_spec(salt, nonce, ciphertext), plaintext),
{
    lemma_decode_encode(salt, nonce, ciphertext);
}

} // verus!
