use quorumkeys::encryption::{decrypt, encrypt, SymmetricKey};
use quorumkeys::hashing::ContentHash;
use quorumkeys::kdf::{derive_recovery_key, generate_salt};
use quorumkeys::signatures::{IdentityKey, UserSecret};
use quorumkeys::CryptoError;

#[test]
fn test_encryption_roundtrip() {
    let key = SymmetricKey::generate();
    let data = b"Confidential Payload";
    let aad = b"Manifest Header v1";

    // Encrypt
    let ciphertext = encrypt(data, &key, aad).unwrap();
    assert_ne!(ciphertext.data, data); // Should be encrypted

    // Decrypt with correct AAD
    let decrypted = decrypt(&ciphertext, &key, aad).unwrap();
    assert_eq!(decrypted, data);
}

#[test]
fn test_aad_mismatch() {
    let key = SymmetricKey::generate();
    let data = b"Secret";
    let aad = b"Context A";
    let aad_wrong = b"Context B";

    let ciphertext = encrypt(data, &key, aad).unwrap();

    // Attempt decrypt with wrong AAD
    let result = decrypt(&ciphertext, &key, aad_wrong);
    assert!(result.is_err());
}

#[test]
fn test_payload_scenario() {
    // End to end: a payload sealed under one manifest header opens under
    // that header exactly, and under no other.
    let dek = SymmetricKey::generate();
    let ciphertext = encrypt(b"Confidential Payload", &dek, b"Manifest Header v1").unwrap();
    let opened = decrypt(&ciphertext, &dek, b"Manifest Header v1").unwrap();
    assert_eq!(opened, b"Confidential Payload");
    let wrong = decrypt(&ciphertext, &dek, b"Manifest Header v2");
    assert_eq!(wrong.unwrap_err(), CryptoError::DecryptionError);
}

#[test]
fn test_ciphertext_corruption() {
    // Corrupting any byte of data or nonce makes decryption fail.
    let key = SymmetricKey::generate();
    let aad = b"header";
    let ciphertext = encrypt(b"payload", &key, aad).unwrap();
    for i in 0..ciphertext.data.len() {
        let mut corrupted = ciphertext.clone();
        corrupted.data[i] ^= 0x01;
        assert!(decrypt(&corrupted, &key, aad).is_err());
    }
    for i in 0..ciphertext.nonce.len() {
        let mut corrupted = ciphertext.clone();
        corrupted.nonce[i] ^= 0x01;
        assert!(decrypt(&corrupted, &key, aad).is_err());
    }
}

#[test]
fn test_wrong_key_fails() {
    let key = SymmetricKey::generate();
    let other = SymmetricKey::generate();
    let ciphertext = encrypt(b"payload", &key, b"aad").unwrap();
    assert!(decrypt(&ciphertext, &other, b"aad").is_err());
}

#[test]
fn test_bad_nonce_length_fails() {
    let key = SymmetricKey::generate();
    let mut ciphertext = encrypt(b"payload", &key, b"aad").unwrap();
    ciphertext.nonce.pop();
    assert_eq!(decrypt(&ciphertext, &key, b"aad").unwrap_err(), CryptoError::DecryptionError);
}

#[test]
fn test_hashing_consistency() {
    let data = b"Hello, decentralized world!";
    let hash1 = ContentHash::hash(data);
    let hash2 = ContentHash::hash(data);
    assert_eq!(hash1, hash2);
}

#[test]
fn test_hex_display() {
    let data = b"abc";
    let hash = ContentHash::hash(data);
    // BLAKE3("abc") known hash prefix check
    assert!(hash.to_hex().starts_with("6437b3"));
}

#[test]
fn test_hash_hex_roundtrip() {
    let hash = ContentHash::hash(b"round trip");
    let text = hash.to_hex();
    assert_eq!(text.len(), 64);
    let back = ContentHash::from_hex(&text).unwrap();
    assert_eq!(back, hash);
    // Uppercase decodes to the same digest.
    let upper = text.to_uppercase();
    assert_eq!(ContentHash::from_hex(&upper).unwrap(), hash);
    // Wrong length and non-digits are rejected.
    assert!(ContentHash::from_hex("6437b3").is_none());
    assert!(ContentHash::from_hex(&"zz".repeat(32)).is_none());
}

#[test]
fn test_hash_bytes_accessors() {
    let hash = ContentHash::hash(b"bytes");
    let copied = ContentHash::from_bytes(*hash.as_bytes());
    assert_eq!(copied, hash);
}

#[test]
fn test_kdf_consistency() {
    let password = "correct horse battery staple";
    let salt = generate_salt();

    // Derivation should be deterministic for same salt
    let key1 = derive_recovery_key(password, &salt).unwrap();
    let key2 = derive_recovery_key(password, &salt).unwrap();

    assert_eq!(key1, key2);
}

#[test]
fn test_kdf_uniqueness() {
    let password = "same password";
    let salt1 = generate_salt();
    let salt2 = generate_salt();

    // Different salts must produce different keys
    let key1 = derive_recovery_key(password, &salt1).unwrap();
    let key2 = derive_recovery_key(password, &salt2).unwrap();

    assert_ne!(key1, key2);
}

#[test]
fn test_kdf_bad_salt() {
    // Characters outside the salt alphabet are rejected, as is a salt that
    // is too short; the passphrase never causes failure.
    assert_eq!(derive_recovery_key("pass", "bad salt!").unwrap_err(), CryptoError::KdfError);
    assert_eq!(derive_recovery_key("pass", "ab").unwrap_err(), CryptoError::KdfError);
}

#[test]
fn test_signing_flow() {
    let secret = UserSecret::generate();
    let public = secret.public_key();
    let message = b"I authorize this post.";

    // Sign
    let sig = secret.sign(message);

    // Verify
    assert!(public.verify(message, &sig).is_ok());
}

#[test]
fn test_signature_bit_flip() {
    let secret = UserSecret::generate();
    let public = secret.public_key();
    let message = b"I authorize this post.";
    let sig = secret.sign(message);

    // A single flipped message bit fails verification.
    let mut altered = message.to_vec();
    altered[0] ^= 0x01;
    assert_eq!(public.verify(&altered, &sig).unwrap_err(), CryptoError::InvalidSignature);

    // A single flipped signature bit fails verification.
    let mut bad_sig = sig;
    bad_sig[0] ^= 0x01;
    assert!(public.verify(message, &bad_sig).is_err());
}

#[test]
fn test_serialization() {
    let secret = UserSecret::generate();
    let public = secret.public_key();

    // Serialize to the manifest embedding: lowercase hex text.
    let text = public.to_hex();
    assert_eq!(text.len(), 64);

    // Deserialize back
    let deserialized = IdentityKey::from_hex(&text).unwrap();
    assert_eq!(public, deserialized);
}

#[test]
fn test_identity_key_bytes() {
    let secret = UserSecret::generate();
    let public = secret.public_key();
    let restored = IdentityKey::from_bytes(&public.as_bytes()).unwrap();
    assert_eq!(restored, public);
}

#[test]
fn test_identity_key_rejects_malformed() {
    // A y-coordinate (2, little endian) that lies on no curve point.
    let mut off_curve = [0u8; 32];
    off_curve[0] = 2;
    assert_eq!(IdentityKey::from_bytes(&off_curve).unwrap_err(), CryptoError::InvalidSignature);
    // Hex of the wrong length.
    assert!(IdentityKey::from_hex("abcd").is_err());
    // Text that is no hex at all.
    assert!(IdentityKey::from_hex(&"zz".repeat(32)).is_err());
}
