//! Key-wrapping envelopes: a fresh X25519 ephemeral keypair per envelope, a
//! Diffie-Hellman exchange with the recipient's public key, a SHA-256
//! compression of the shared secret into a key-encryption key, and RFC 3394
//! AES-256 key wrap of the data encryption key under it.

use vstd::prelude::*;
use crate::encryption::{random_bytes32, SymmetricKey, KEY_SIZE};
use crate::CryptoError;
use aes_kw::KekAes256;
use sha2::{Digest, Sha256};
use x25519_dalek::{PublicKey, StaticSecret};

verus! {

/// The X25519 public key belonging to 32 secret bytes: a pure function of
/// the secret.
pub uninterp spec fn x25519_public(sk: Seq<u8>) -> Seq<u8>;

/// The X25519 shared secret of own secret bytes and a peer public key: a
/// pure function of both.
pub uninterp spec fn x25519_shared(sk: Seq<u8>, pk: Seq<u8>) -> Seq<u8>;

/// The SHA-256 digest of a byte string: a pure function of the input.
pub uninterp spec fn sha256_of(data: Seq<u8>) -> Seq<u8>;

/// RFC 3394 AES-256 key wrap of a key under a key-encryption key: a pure
/// function of both.
pub uninterp spec fn kw_wrap(kek: Seq<u8>, key: Seq<u8>) -> Seq<u8>;

/// RFC 3394 AES-256 key unwrap: `Some(key)` exactly when the data wraps
/// that key under this key-encryption key, `None` when the integrity check
/// fails. A pure function of its arguments.
pub uninterp spec fn kw_unwrap(kek: Seq<u8>, wrapped: Seq<u8>) -> Option<Seq<u8>>;

/// Relies on x25519_dalek::PublicKey::From<&StaticSecret>: the public key
/// is a pure function of the 32 secret bytes.
#[verifier::external_body]
fn x25519_derive_public(sk: &[u8; 32]) -> (r: [u8; 32])
    ensures
        r@ == x25519_public(sk@),
{
    let secret = StaticSecret::from(*sk);
    *PublicKey::from(&secret).as_bytes()
}

/// Relies on x25519_dalek::StaticSecret::diffie_hellman: the shared secret
/// is a pure function of own secret and peer public bytes, and the exchange
/// commutes — whenever the peer key is the public key of some secret, that
/// secret's own exchange with our public key yields the same bytes.
#[verifier::external_body]
fn x25519_exchange(sk: &[u8; 32], pk: &[u8; 32]) -> (r: [u8; 32])
    ensures
        r@ == x25519_shared(sk@, pk@),
        forall|other: Seq<u8>| pk@ == #[trigger] x25519_public(other) ==> r@ == x25519_shared(
            other,
            x25519_public(sk@),
        ),
{
    let secret = StaticSecret::from(*sk);
    let public = PublicKey::from(*pk);
    *secret.diffie_hellman(&public).as_bytes()
}

/// Relies on sha2::Sha256: the digest is a pure function of the input.
#[verifier::external_body]
fn sha256(data: &[u8; 32]) -> (r: [u8; 32])
    ensures
        r@ == sha256_of(data@),
{
    let mut hasher = Sha256::new();
    hasher.update(data);
    hasher.finalize().into()
}

#[verifier::external_type_specification]
#[verifier::external_body]
pub struct ExKwError(aes_kw::Error);

/// Relies on aes_kw::KekAes256::wrap_vec (RFC 3394): wrapping a 32-byte key
/// always succeeds, is a pure function of kek and key, adds the 8-byte
/// integrity block, and unwrapping under the same kek yields the key back.
#[verifier::external_body]
fn aes_kw_wrap(kek: &[u8; 32], key: &[u8; 32]) -> (r: Result<Vec<u8>, aes_kw::Error>)
    ensures
        r is Ok,
        r matches Ok(w) ==> w@ == kw_wrap(kek@, key@),
        r matches Ok(w) ==> w@.len() == 40,
        r matches Ok(w) ==> kw_unwrap(kek@, w@) == Some(key@),
{
    KekAes256::from(*kek).wrap_vec(key)
}

/// Relies on aes_kw::KekAes256::unwrap_vec (RFC 3394): unwrapping succeeds
/// exactly when the integrity check passes under this kek, and then returns
/// the wrapped key.
#[verifier::external_body]
fn aes_kw_unwrap(kek: &[u8; 32], wrapped: &[u8]) -> (r: Result<Vec<u8>, aes_kw::Error>)
    ensures
        r matches Ok(k) ==> kw_unwrap(kek@, wrapped@) == Some(k@),
        r is Err ==> kw_unwrap(kek@, wrapped@) is None,
{
    KekAes256::from(*kek).unwrap_vec(wrapped)
}

/// An envelope's wrapped bytes deliver `dek` to every holder of a secret
/// key matching `recipient`: the recipient's own exchange with the stored
/// ephemeral key rederives the key-encryption key, and the wrap opens under
/// it to exactly `dek`.
pub open spec fn envelope_delivers(
    ephemeral_pub: Seq<u8>,
    wrapped_key: Seq<u8>,
    recipient: Seq<u8>,
    dek: Seq<u8>,
) -> bool {
    forall|rsk: Seq<u8>|
        recipient == #[trigger] x25519_public(rsk) ==> kw_unwrap(
            sha256_of(x25519_shared(rsk, ephemeral_pub)),
            wrapped_key,
        ) == Some(dek)
}

/// Law: opening an envelope sealed for a recipient, with the secret key
/// whose public key the envelope was sealed for, recovers exactly the
/// sealed data encryption key.
pub proof fn lemma_seal_open(
    ephemeral_pub: Seq<u8>,
    wrapped_key: Seq<u8>,
    recipient: Seq<u8>,
    dek: Seq<u8>,
    rsk: Seq<u8>,
)
    requires
        envelope_delivers(ephemeral_pub, wrapped_key, recipient, dek),
        recipient == x25519_public(rsk),
    ensures
        kw_unwrap(sha256_of(x25519_shared(rsk, ephemeral_pub)), wrapped_key) == Some(dek),
{
}

/// Represents a secure transmission of a symmetric key to a recipient.
#[derive(Debug, Clone)]
pub struct Envelope {
    /// The ephemeral public key of the sender (for this specific envelope).
    /// Allows the recipient to perform ECDH to recover the KEK.
    pub ephemeral_pub: [u8; 32],
    /// The recipient's public identity or specific encryption key.
    pub recipient_id: [u8; 32],
    /// Unix timestamp (seconds) when this key access expires. Advisory
    /// metadata only: `open` does not check it, policy belongs to callers.
    pub expiry: u64,
    /// The wrapped Data Encryption Key (DEK), encrypted with AES-KW under
    /// the derived KEK.
    pub wrapped_key: Vec<u8>,
}

impl Envelope {
    /// Create a new envelope containing a SymmetricKey for a specific
    /// recipient. A fresh ephemeral keypair per call gives each envelope
    /// forward secrecy.
    pub fn seal(dek: &SymmetricKey, recipient_pub_bytes: [u8; 32], expiry: u64) -> (r: Result<
        Self,
        CryptoError,
    >)
        ensures
            r is Ok,
            r matches Ok(env) ==> {
                &&& env.recipient_id@ == recipient_pub_bytes@
                &&& env.expiry == expiry
                &&& env.wrapped_key@.len() == 40
                &&& envelope_delivers(
                    env.ephemeral_pub@,
                    env.wrapped_key@,
                    recipient_pub_bytes@,
                    dek@,
                )
            },
    {
        let ephemeral_secret = random_bytes32();
        let ephemeral_pub = x25519_derive_public(&ephemeral_secret);
        let shared = x25519_exchange(&ephemeral_secret, &recipient_pub_bytes);
        let kek = sha256(&shared);
        match aes_kw_wrap(&kek, dek.as_bytes()) {
            Ok(wrapped_key) => {
                proof {
                    assert forall|rsk: Seq<u8>|
                        recipient_pub_bytes@ == #[trigger] x25519_public(rsk) implies kw_unwrap(
                        sha256_of(x25519_shared(rsk, ephemeral_pub@)),
                        wrapped_key@,
                    ) == Some(dek@) by {
                        assert(shared@ == x25519_shared(rsk, x25519_public(ephemeral_secret@)));
                    }
                }
                Ok(
                    Envelope {
                        ephemeral_pub,
                        recipient_id: recipient_pub_bytes,
                        expiry,
                        wrapped_key,
                    },
                )
            },
            Err(_) => Err(CryptoError::EncryptionError),
        }
    }

    /// Open an envelope to recover the SymmetricKey. Succeeds exactly when
    /// the given secret key rederives a KEK under which the wrapped bytes
    /// pass the integrity check and unwrap to exactly 32 bytes.
    pub fn open(&self, recipient_secret_bytes: [u8; 32]) -> (r: Result<SymmetricKey, CryptoError>)
        ensures
            ({
                let unwrapped = kw_unwrap(
                    sha256_of(x25519_shared(recipient_secret_bytes@, self.ephemeral_pub@)),
                    self.wrapped_key@,
                );
                &&& (r is Ok <==> (unwrapped matches Some(k) && k.len() == 32))
                &&& (r matches Ok(key) ==> unwrapped == Some(key@))
            }),
            r matches Err(e) ==> e == CryptoError::DecryptionError,
    {
        let shared = x25519_exchange(&recipient_secret_bytes, &self.ephemeral_pub);
        let kek = sha256(&shared);
        match aes_kw_unwrap(&kek, self.wrapped_key.as_slice()) {
            Ok(dek_bytes) => {
                if dek_bytes.len() == KEY_SIZE {
                    let mut arr = [0u8; 32];
                    let mut i: usize = 0;
                    while i < 32
                        invariant
                            i <= 32,
                            dek_bytes@.len() == 32,
                            arr@.len() == 32,
                            forall|j: int| 0 <= j < i ==> arr@[j] == dek_bytes@[j],
                        decreases 32 - i,
                    {
                        arr[i] = dek_bytes[i];
                        i = i + 1;
                    }
                    proof {
                        assert(arr@ =~= dek_bytes@);
                    }
                    Ok(SymmetricKey::from_bytes(arr))
                } else {
                    Err(CryptoError::DecryptionError)
                }
            },
            Err(_) => Err(CryptoError::DecryptionError),
        }
    }
}

} // verus!
