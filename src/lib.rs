//! A password-protected secret store: key derivation, authenticated
//! encryption of the secret map, and the binary container that holds it.

pub mod error;
pub mod cmd;
pub mod crypto;
pub mod format;
pub mod model;
pub mod storage;
mod text;
pub mod vault;
