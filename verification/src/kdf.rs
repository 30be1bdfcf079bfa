//! Passphrase-based key derivation: Argon2id with fixed, documented tuning
//! (memory 65536 KiB, 2 iterations, parallelism 4). Changing these
//! parameters changes every future derived key, so they must be versioned if
//! ever altered.

use vstd::prelude::*;
use vstd::string::StringSliceAdditionalSpecFns;
use crate::CryptoError;
use argon2::password_hash::{PasswordHasher, SaltString};
use argon2::{Algorithm, Argon2, Params, Version};
use rand::RngCore;

verus! {

/// The Argon2id digest (memory 65536 KiB, 2 iterations, parallelism 4,
/// version 0x13, default 32-byte output) of a passphrase under a salt: a
/// pure function of passphrase and salt, so derivation is deterministic.
pub uninterp spec fn argon2_digest(passphrase: Seq<char>, salt: Seq<char>) -> Seq<u8>;

/// Whether derivation accepts a salt string (characters in `[a-zA-Z0-9/+.-]`,
/// 4 to 64 of them, decoding to at least 8 bytes): a pure function of the
/// salt text alone, never of the passphrase.
pub uninterp spec fn salt_accepted(salt: Seq<char>) -> bool;

/// Relies on argon2::Argon2::hash_password with Argon2id, version 0x13,
/// memory 65536 KiB, 2 iterations, parallelism 4 and the default output
/// length: the digest is a pure function of passphrase and salt, 32 bytes
/// long, and — for passphrases within the algorithm's 2^32 - 1 byte input
/// limit, which the `requires` keeps to — the call fails exactly when the
/// salt is rejected, never on passphrase content.
#[verifier::external_body]
fn argon2id_hash(passphrase: &str, salt: &str) -> (r: Option<Vec<u8>>)
    requires
        passphrase.spec_bytes().len() <= 0xFFFFFFFF,  // the algorithm reads at most 2^32 - 1 password bytes
    ensures
        r is Some <==> salt_accepted(salt@),
        r matches Some(h) ==> h@ == argon2_digest(passphrase@, salt@),
        r matches Some(h) ==> h@.len() == 32,
{
    let params = match Params::new(65536, 2, 4, None) {
        Ok(p) => p,
        Err(_) => return None,
    };
    let argon2 = Argon2::new(Algorithm::Argon2id, Version::V0x13, params);
    let salt_string = match SaltString::from_b64(salt) {
        Ok(s) => s,
        Err(_) => return None,
    };
    let hash = match argon2.hash_password(passphrase.as_bytes(), &salt_string) {
        Ok(h) => h,
        Err(_) => return None,
    };
    hash.hash.map(|h| h.as_bytes().to_vec())
}

/// Derives a 32-byte recovery key from a user passphrase using Argon2id.
///
/// Deterministic: the result is a pure function of passphrase and salt, so
/// the same pair always yields the same key. Fails exactly when the salt
/// encoding is rejected, never on passphrase content.
pub fn derive_recovery_key(passphrase: &str, salt: &str) -> (r: Result<[u8; 32], CryptoError>)
    requires
        passphrase.spec_bytes().len() <= 0xFFFFFFFF,  // machine limit: the algorithm reads at most 2^32 - 1 password bytes
    ensures
        r is Ok <==> salt_accepted(salt@),
        r matches Ok(k) ==> k@ == argon2_digest(passphrase@, salt@),
        r matches Err(e) ==> e == CryptoError::KdfError,
{
    match argon2id_hash(passphrase, salt) {
        Some(h) => {
            if h.len() >= 32 {
                let mut key = [0u8; 32];
                let mut i: usize = 0;
                while i < 32
                    invariant
                        i <= 32,
                        h@.len() >= 32,
                        key@.len() == 32,
                        forall|j: int| 0 <= j < i ==> key@[j] == h@[j],
                    decreases 32 - i,
                {
                    key[i] = h[i];
                    i = i + 1;
                }
                proof {
                    assert(key@ =~= h@);
                }
                Ok(key)
            } else {
                Err(CryptoError::KdfError)
            }
        },
        None => Err(CryptoError::KdfError),
    }
}

/// Generates a random salt for new-account derivation.
///
/// Relies on rand::rngs::OsRng for 16 fresh random bytes and on
/// argon2::password_hash::SaltString::encode_b64 for their B64 text; every
/// salt so produced is accepted by `derive_recovery_key`.
#[verifier::external_body]
pub fn generate_salt() -> (r: String)
    ensures
        salt_accepted(r@),
{
    let mut bytes = [0u8; 16];
    rand::rngs::OsRng.fill_bytes(&mut bytes);
    // encode_b64 rejects only inputs whose encoding exceeds 64 characters;
    // 16 bytes encode as 22.
    let salt = SaltString::encode_b64(&bytes).expect("16 bytes always fit in a salt");
    salt.as_str().to_string()
}

} // verus!
