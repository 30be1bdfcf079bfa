//! Authenticated encryption with associated data: XChaCha20-Poly1305 under a
//! 32-byte data encryption key, with a fresh random 24-byte nonce per call
//! and a caller-chosen context string bound to the ciphertext.

use vstd::prelude::*;
use crate::CryptoError;
use chacha20poly1305::aead::{Aead, KeyInit, Payload};
use chacha20poly1305::{XChaCha20Poly1305, XNonce};
use rand::RngCore;

verus! {

/// The size of the symmetric key in bytes (32 bytes = 256 bits).
pub const KEY_SIZE: usize = 32;

/// The size of the XChaCha20 nonce in bytes (24 bytes = 192 bits).
pub const NONCE_SIZE: usize = 24;

/// XChaCha20-Poly1305 encryption: the ciphertext, tag included, that
/// encrypting `plaintext` under `key` and `nonce` bound to `aad` produces.
/// A pure function of its arguments.
pub uninterp spec fn aead_enc(key: Seq<u8>, nonce: Seq<u8>, plaintext: Seq<u8>, aad: Seq<u8>) -> Seq<
    u8,
>;

/// XChaCha20-Poly1305 decryption: `Some(plaintext)` exactly when `data`
/// authenticates under `key`, `nonce` and `aad`. A pure function of its
/// arguments.
pub uninterp spec fn aead_dec(key: Seq<u8>, nonce: Seq<u8>, data: Seq<u8>, aad: Seq<u8>) -> Option<
    Seq<u8>,
>;

#[verifier::external_type_specification]
#[verifier::external_body]
pub struct ExAeadError(chacha20poly1305::aead::Error);

/// Relies on chacha20poly1305::XChaCha20Poly1305 (aead::Aead::encrypt):
/// encryption is a pure function of key, nonce, plaintext and aad; the
/// Poly1305 tag appends 16 bytes; decrypting the result under the same
/// key, nonce and aad yields the plaintext back; and the call fails only
/// when the plaintext reaches 64 blocks short of the 32-bit counter, that
/// is 64 * (2^32 - 1) bytes.
#[verifier::external_body]
fn xchacha_encrypt(key: &[u8; 32], nonce: &[u8], plaintext: &[u8], aad: &[u8]) -> (r: Result<
    Vec<u8>,
    chacha20poly1305::aead::Error,
>)
    requires
        nonce@.len() == 24,
    ensures
        r matches Ok(c) ==> c@ == aead_enc(key@, nonce@, plaintext@, aad@),
        r matches Ok(c) ==> c@.len() == plaintext@.len() + 16,
        r matches Ok(c) ==> aead_dec(key@, nonce@, c@, aad@) == Some(plaintext@),
        plaintext@.len() < 64 * 0xFFFFFFFF ==> r is Ok,
{
    let cipher = XChaCha20Poly1305::new(key.into());
    cipher.encrypt(XNonce::from_slice(nonce), Payload { msg: plaintext, aad })
}

/// Relies on chacha20poly1305::XChaCha20Poly1305 (aead::Aead::decrypt):
/// decryption succeeds exactly when the data authenticates under key, nonce
/// and aad, and then returns the encrypted plaintext.
#[verifier::external_body]
fn xchacha_decrypt(key: &[u8; 32], nonce: &[u8], data: &[u8], aad: &[u8]) -> (r: Result<
    Vec<u8>,
    chacha20poly1305::aead::Error,
>)
    requires
        nonce@.len() == 24,
    ensures
        r matches Ok(p) ==> aead_dec(key@, nonce@, data@, aad@) == Some(p@),
        r is Err ==> aead_dec(key@, nonce@, data@, aad@) is None,
{
    let cipher = XChaCha20Poly1305::new(key.into());
    cipher.decrypt(XNonce::from_slice(nonce), Payload { msg: data, aad })
}

/// Relies on rand::rngs::OsRng (rand::RngCore::fill_bytes) to draw a fresh
/// random 24-byte nonce from the operating system.
#[verifier::external_body]
fn random_nonce() -> (r: Vec<u8>)
    ensures
        r@.len() == 24,
{
    let mut nonce = [0u8; 24];
    rand::rngs::OsRng.fill_bytes(&mut nonce);
    nonce.to_vec()
}

/// Relies on rand::rngs::OsRng (rand::RngCore::fill_bytes) to draw 32 fresh
/// random bytes from the operating system; key generation across the crate
/// draws from here.
#[verifier::external_body]
pub(crate) fn random_bytes32() -> (r: [u8; 32]) {
    let mut bytes = [0u8; 32];
    rand::rngs::OsRng.fill_bytes(&mut bytes);
    bytes
}

/// What `encrypt` guarantees of a ciphertext it returned for a plaintext,
/// key and aad: a full-size nonce, the data the cipher produces for them,
/// and data that authenticates back to the plaintext.
pub open spec fn encrypted_to(
    key: Seq<u8>,
    nonce: Seq<u8>,
    data: Seq<u8>,
    aad: Seq<u8>,
    plaintext: Seq<u8>,
) -> bool {
    &&& nonce.len() == 24
    &&& data == aead_enc(key, nonce, plaintext, aad)
    &&& aead_dec(key, nonce, data, aad) == Some(plaintext)
}

/// The condition under which `decrypt` succeeds with exactly `plaintext`.
pub open spec fn decrypts_to(
    key: Seq<u8>,
    nonce: Seq<u8>,
    data: Seq<u8>,
    aad: Seq<u8>,
    plaintext: Seq<u8>,
) -> bool {
    &&& nonce.len() == 24
    &&& aead_dec(key, nonce, data, aad) == Some(plaintext)
}

/// Law: round trip. Any ciphertext meeting `encrypt`'s guarantee for a
/// plaintext, key and aad meets `decrypt`'s success condition under the
/// same key and aad with exactly that plaintext — so decrypting what
/// encrypt produced returns the original bytes.
pub proof fn lemma_encrypt_decrypt_round_trip(
    key: Seq<u8>,
    nonce: Seq<u8>,
    data: Seq<u8>,
    aad: Seq<u8>,
    plaintext: Seq<u8>,
)
    requires
        encrypted_to(key, nonce, data, aad, plaintext),
    ensures
        decrypts_to(key, nonce, data, aad, plaintext),
{
}

/// Represents an encrypted payload, including the unique nonce used.
#[derive(Debug, Clone)]
pub struct Ciphertext {
    /// The random 24-byte nonce used for this specific encryption.
    pub nonce: Vec<u8>,
    /// The actual encrypted data (including the Poly1305 tag).
    pub data: Vec<u8>,
}

/// A wrapper for the symmetric Data Encryption Key (DEK). The raw bytes are
/// reachable only through `as_bytes`; the type offers no display or
/// serialization path.
#[derive(Clone)]
pub struct SymmetricKey {
    bytes: [u8; 32],
}

impl View for SymmetricKey {
    type V = Seq<u8>;

    closed spec fn view(&self) -> Seq<u8> {
        self.bytes@
    }
}

impl SymmetricKey {
    /// Generate a new random symmetric key.
    pub fn generate() -> (r: Self)
        ensures
            r@.len() == 32,
    {
        SymmetricKey { bytes: random_bytes32() }
    }

    /// Create a key from existing bytes (e.g., after unwrapping an Envelope).
    pub fn from_bytes(bytes: [u8; 32]) -> (r: Self)
        ensures
            r@ == bytes@,
    {
        SymmetricKey { bytes }
    }

    /// Access the raw bytes, only to feed a cipher.
    pub fn as_bytes(&self) -> (r: &[u8; 32])
        ensures
            r@ == self@,
    {
        &self.bytes
    }
}

/// Encrypts data using XChaCha20-Poly1305 under a fresh random nonce,
/// binding `aad` (e.g., a manifest header) to the ciphertext. Succeeds on
/// every plaintext below 64 * (2^32 - 1) bytes, the cipher's counter bound;
/// the result meets `encrypted_to`, so by `lemma_encrypt_decrypt_round_trip`
/// it decrypts under the same key and aad to exactly the original plaintext.
pub fn encrypt(plaintext: &[u8], key: &SymmetricKey, aad: &[u8]) -> (r: Result<
    Ciphertext,
    CryptoError,
>)
    ensures
        r matches Ok(c) ==> encrypted_to(key@, c.nonce@, c.data@, aad@, plaintext@),
        r matches Ok(c) ==> c.data@.len() == plaintext@.len() + 16,
        plaintext@.len() < 64 * 0xFFFFFFFF ==> r is Ok,
        r matches Err(e) ==> e == CryptoError::EncryptionError,
{
    let nonce = random_nonce();
    match xchacha_encrypt(&key.bytes, nonce.as_slice(), plaintext, aad) {
        Ok(data) => Ok(Ciphertext { nonce, data }),
        Err(_) => Err(CryptoError::EncryptionError),
    }
}

/// Decrypts data using XChaCha20-Poly1305. Succeeds exactly when the nonce
/// is 24 bytes long and the data authenticates under the key, that nonce and
/// the exact aad used at encryption time; every failure is the one
/// undifferentiated decryption error.
pub fn decrypt(ciphertext: &Ciphertext, key: &SymmetricKey, aad: &[u8]) -> (r: Result<
    Vec<u8>,
    CryptoError,
>)
    ensures
        r is Ok <==> ciphertext.nonce@.len() == 24 && aead_dec(
            key@,
            ciphertext.nonce@,
            ciphertext.data@,
            aad@,
        ) is Some,
        r matches Ok(p) ==> decrypts_to(key@, ciphertext.nonce@, ciphertext.data@, aad@, p@),
        r matches Err(e) ==> e == CryptoError::DecryptionError,
{
    if ciphertext.nonce.len() != NONCE_SIZE {
        return Err(CryptoError::DecryptionError);
    }
    match xchacha_decrypt(&key.bytes, ciphertext.nonce.as_slice(), ciphertext.data.as_slice(), aad) {
        Ok(plaintext) => Ok(plaintext),
        Err(_) => Err(CryptoError::DecryptionError),
    }
}

} // verus!
