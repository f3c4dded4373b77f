//! Passphrase-protected file containers.
//!
//! The library turns plain bytes into, and back from, an authenticated,
//! versioned container format: a memory-hard key derivation per container
//! (scrypt over a fresh random salt), ChaCha20-Poly1305 over the content and
//! over the embedded file name (each under its own fresh nonce), and a fixed
//! binary layout around them. Beside the containers stand a stateless
//! filename obfuscator for path segments, a directory archiver with a
//! path-escape guard, and the classification and naming rules of the
//! transform pipeline. Contracts state, and proofs establish, that every
//! well-formed container decodes back to exactly what was sealed into it.

pub mod aead;
pub mod archive;
pub mod codec;
pub mod entropy;
pub mod kdf;
pub mod obfuscate;
pub mod ops;
pub mod pipeline;
mod strutil;

use vstd::prelude::*;

verus! {

/// The error taxonomy of the library: every fallible operation reports one of
/// these categories.
#[derive(Clone, Copy, Debug, PartialEq, Eq, Structural)]
pub enum EfError {
    /// An input path is neither a file nor a directory.
    InvalidPath,
    /// The target list is empty.
    NoInput,
    /// The key-derivation function failed internally.
    KeyDerivation,
    /// Bad magic, unsupported version, malformed length field, or invalid
    /// UTF-8 after decryption.
    Format,
    /// Authenticated decryption rejected the data: wrong passphrase or
    /// corruption, indistinguishable by design.
    Authentication,
    /// Malformed archive blob or an entry path that escapes the destination.
    Archive,
    /// An underlying read, write, or rename failed.
    Io,
}

impl EfError {
    /// A short description of the error's category, for reporting.
    pub fn describe(&self) -> &'static str {
        match self {
            EfError::InvalidPath => "input is neither a file nor a directory",
            EfError::NoInput => "no input provided",
            EfError::KeyDerivation => "key derivation failed",
            EfError::Format => "malformed or unsupported data",
            EfError::Authentication => "wrong passphrase or corrupted data",
            EfError::Archive => "malformed archive or unsafe entry path",
            EfError::Io => "read, write, or rename failed",
        }
    }
}

} // verus!
