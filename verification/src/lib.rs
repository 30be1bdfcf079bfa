//! Cryptographic key management and authorization for a decentralized
//! application: authenticated encryption of content under a data encryption
//! key, key-wrapping envelopes that deliver that key to one recipient,
//! passphrase-based key derivation, content hashing, individual digital
//! signatures, and threshold signatures that let a quorum of council members
//! jointly authorize an action.

use vstd::prelude::*;

pub mod account;
pub mod council;
pub mod encryption;
pub mod envelopes;
pub mod governance;
pub mod hashing;
pub mod hexstr;
pub mod kdf;
pub mod signatures;
pub mod threshold;

pub use encryption::Ciphertext;
pub use hashing::ContentHash;
pub use signatures::IdentityKey;

verus! {

/// Common error type for all cryptographic operations.
///
/// A decryption failure is deliberately undifferentiated: the same variant
/// covers a wrong key, a wrong nonce, tampered data and a mismatched AAD, so
/// that callers cannot build a decryption oracle out of the error content.
#[derive(Clone, Copy, Debug, PartialEq, Eq, Structural)]
pub enum CryptoError {
    /// The cipher rejected an encryption operation.
    EncryptionError,
    /// Authentication failed during decryption or key unwrapping.
    DecryptionError,
    /// A signature did not verify, or key or signature bytes were malformed.
    InvalidSignature,
    /// Key derivation failed because the salt or the parameters were malformed.
    KdfError,
    /// Threshold signature aggregation failed.
    ThresholdError,
}

} // verus!
