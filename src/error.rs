use vstd::prelude::*;

verus! {

/// Why a container could not be decoded.
#[derive(Debug, Clone, Copy, PartialEq, Eq)]
pub enum FormatError {
    /// The buffer ended before a field that the layout requires.
    Truncated,
    /// The leading tag is not the format's magic.
    BadMagic,
    /// The container declares a version that this library does not read.
    UnsupportedVersion(u16),
}

/// Which field of a container is too long for its length prefix.
#[derive(Debug, Clone, Copy, PartialEq, Eq)]
pub enum SizeError {
    Salt,
    Nonce,
    Ciphertext,
}

/// Every failure the vault can report.
#[derive(Debug, PartialEq, Eq)]
pub enum VaultError {
    /// The key derivation function rejected its inputs.
    Derivation,
    /// Wrong password or tampered bytes; the two are not told apart.
    Authentication,
    /// The container bytes are not a readable container.
    Format(FormatError),
    /// A field does not fit the container's length prefixes.
    Size(SizeError),
    /// The decrypted payload is not a valid secret map.
    CorruptedData,
    /// The key is already present in the secret map.
    DuplicateKey,
    /// The key is not present in the secret map.
    MissingKey,
    /// A new password and its confirmation differ.
    PasswordMismatch,
    /// No vault exists yet.
    NotFound,
    /// A filesystem operation failed.
    Io(String),
    /// The operating system's random source failed.
    RandomSource,
}

} // verus!
