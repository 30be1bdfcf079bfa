//! Individual digital signatures: Ed25519 keypairs, where the public
//! identity is safe to share and embed in manifests as hex text, and the
//! signing key exposes no display or serialization path.

use vstd::prelude::*;
use crate::encryption::random_bytes32;
use crate::hexstr::{decode_hex, encode_hex, hex_bytes, hex_of, valid_hex};
use crate::CryptoError;
use ed25519_dalek::{Signature, Signer, SigningKey, Verifier, VerifyingKey};

verus! {

/// Whether 32 bytes decode to a valid Ed25519 verifying key
/// (a canonical curve-point encoding): a pure function of the bytes.
pub uninterp spec fn ed25519_valid_pk(pk: Seq<u8>) -> bool;

/// The Ed25519 verifying key belonging to a 32-byte signing-key seed:
/// a pure function of the seed.
pub uninterp spec fn ed25519_pk_of(seed: Seq<u8>) -> Seq<u8>;

/// The deterministic (RFC 8032) Ed25519 signature of a message under a
/// seed: a pure function of seed and message.
pub uninterp spec fn ed25519_signature(seed: Seq<u8>, msg: Seq<u8>) -> Seq<u8>;

/// Whether 64 signature bytes verify a message under 32 public-key bytes:
/// a pure function of its arguments, false whenever the key bytes are
/// malformed.
pub uninterp spec fn ed25519_sig_ok(pk: Seq<u8>, msg: Seq<u8>, sig: Seq<u8>) -> bool;

/// Relies on ed25519_dalek::VerifyingKey::from_bytes: parsing succeeds
/// exactly on canonical encodings of curve points, a property of the bytes
/// alone.
#[verifier::external_body]
fn ed25519_check_pk(bytes: &[u8; 32]) -> (r: bool)
    ensures
        r == ed25519_valid_pk(bytes@),
{
    VerifyingKey::from_bytes(bytes).is_ok()
}

/// Relies on ed25519_dalek::VerifyingKey::verify, which is deterministic,
/// and on Signature::from_bytes, which accepts any 64 bytes; malformed key
/// bytes verify nothing.
#[verifier::external_body]
fn ed25519_verify(pk: &[u8; 32], message: &[u8], signature: &[u8; 64]) -> (r: bool)
    ensures
        r == ed25519_sig_ok(pk@, message@, signature@),
{
    match VerifyingKey::from_bytes(pk) {
        Ok(vk) => vk.verify(message, &Signature::from_bytes(signature)).is_ok(),
        Err(_) => false,
    }
}

/// Relies on ed25519_dalek::SigningKey::sign: signing is deterministic per
/// RFC 8032, and the signature verifies under the seed's own verifying key.
#[verifier::external_body]
fn ed25519_sign(seed: &[u8; 32], message: &[u8]) -> (r: [u8; 64])
    ensures
        r@ == ed25519_signature(seed@, message@),
        ed25519_sig_ok(ed25519_pk_of(seed@), message@, r@),
{
    SigningKey::from_bytes(seed).sign(message).to_bytes()
}

/// Relies on ed25519_dalek::SigningKey::verifying_key: the verifying key is
/// a pure function of the seed and always parses back as a valid key.
#[verifier::external_body]
fn ed25519_public(seed: &[u8; 32]) -> (r: [u8; 32])
    ensures
        r@ == ed25519_pk_of(seed@),
        ed25519_valid_pk(r@),
{
    SigningKey::from_bytes(seed).verifying_key().to_bytes()
}

/// Represents a Public Identity (User ID): the public half of an Ed25519
/// keypair, safe to serialize and share.
#[derive(Copy, Clone, PartialEq, Eq, Debug)]
pub struct IdentityKey {
    bytes: [u8; 32],
}

impl View for IdentityKey {
    type V = Seq<u8>;

    closed spec fn view(&self) -> Seq<u8> {
        self.bytes@
    }
}

impl IdentityKey {
    #[verifier::type_invariant]
    spec fn wf(self) -> bool {
        ed25519_valid_pk(self@)
    }

    /// Read an identity back from raw bytes; rejects encodings that are no
    /// curve point.
    pub fn from_bytes(bytes: &[u8; 32]) -> (r: Result<Self, CryptoError>)
        ensures
            r is Ok <==> ed25519_valid_pk(bytes@),
            r matches Ok(k) ==> k@ == bytes@,
            r matches Err(e) ==> e == CryptoError::InvalidSignature,
    {
        if ed25519_check_pk(bytes) {
            Ok(IdentityKey { bytes: *bytes })
        } else {
            Err(CryptoError::InvalidSignature)
        }
    }

    /// The raw 32 bytes of the verification key.
    pub fn as_bytes(&self) -> (r: [u8; 32])
        ensures
            r@ == self@,
    {
        self.bytes
    }

    /// Verify a signature against a message. Succeeds exactly when the
    /// signature verifies this message under this identity; a malformed
    /// signature is rejected like an incorrect one.
    pub fn verify(&self, message: &[u8], signature_bytes: &[u8; 64]) -> (r: Result<
        (),
        CryptoError,
    >)
        ensures
            r is Ok <==> ed25519_sig_ok(self@, message@, signature_bytes@),
            r matches Err(e) ==> e == CryptoError::InvalidSignature,
    {
        if ed25519_verify(&self.bytes, message, signature_bytes) {
            Ok(())
        } else {
            Err(CryptoError::InvalidSignature)
        }
    }

    /// The lowercase hex text of the key, as manifests embed it.
    pub fn to_hex(&self) -> (r: String)
        ensures
            r@ == hex_of(self@),
    {
        encode_hex(self.bytes.as_slice())
    }

    /// Read an identity back from hex text; rejects text that does not
    /// decode to exactly 32 bytes forming a valid key.
    pub fn from_hex(s: &str) -> (r: Result<Self, CryptoError>)
        ensures
            r is Ok <==> valid_hex(s@) && s@.len() == 64 && ed25519_valid_pk(hex_bytes(s@)),
            r matches Ok(k) ==> k@ == hex_bytes(s@),
            r matches Err(e) ==> e == CryptoError::InvalidSignature,
    {
        match decode_hex(s) {
            Some(bytes) => {
                if bytes.len() == 32 {
                    let mut raw = [0u8; 32];
                    let mut i: usize = 0;
                    while i < 32
                        invariant
                            i <= 32,
                            bytes@.len() == 32,
                            raw@.len() == 32,
                            forall|j: int| 0 <= j < i ==> raw@[j] == bytes@[j],
                        decreases 32 - i,
                    {
                        raw[i] = bytes[i];
                        i = i + 1;
                    }
                    proof {
                        assert(raw@ =~= bytes@);
                    }
                    IdentityKey::from_bytes(&raw)
                } else {
                    Err(CryptoError::InvalidSignature)
                }
            },
            None => Err(CryptoError::InvalidSignature),
        }
    }
}

/// A wrapper for the private signing key. The seed is reachable by no
/// accessor at all: the type offers signing and the matching public
/// identity, and neither display nor serialization.
pub struct UserSecret {
    seed: [u8; 32],
}

impl View for UserSecret {
    type V = Seq<u8>;

    closed spec fn view(&self) -> Seq<u8> {
        self.seed@
    }
}

impl UserSecret {
    /// Generate a new random keypair.
    pub fn generate() -> (r: Self)
        ensures
            r@.len() == 32,
    {
        UserSecret { seed: random_bytes32() }
    }

    /// Sign a message. Deterministic per (key, message), and the signature
    /// verifies under this secret's public identity.
    pub fn sign(&self, message: &[u8]) -> (r: [u8; 64])
        ensures
            r@ == ed25519_signature(self@, message@),
            ed25519_sig_ok(ed25519_pk_of(self@), message@, r@),
    {
        ed25519_sign(&self.seed, message)
    }

    /// Get the corresponding public identity, always a valid key.
    pub fn public_key(&self) -> (r: IdentityKey)
        ensures
            r@ == ed25519_pk_of(self@),
            ed25519_valid_pk(r@),
    {
        let bytes = ed25519_public(&self.seed);
        IdentityKey { bytes }
    }
}

} // verus!
