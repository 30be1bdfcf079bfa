use quorumkeys::encryption::SymmetricKey;
use quorumkeys::envelopes::Envelope;
use quorumkeys::threshold::{CombinedSignature, CouncilKeySet, MemberSecret, PartialVote};
use quorumkeys::CryptoError;
use rand::Rng;
use threshold_crypto::serde_impl::SerdeSecret;
use threshold_crypto::SecretKeySet;
use x25519_dalek::{PublicKey, StaticSecret};

fn x25519_keypair() -> ([u8; 32], [u8; 32]) {
    let secret_bytes: [u8; 32] = rand::thread_rng().gen();
    let secret = StaticSecret::from(secret_bytes);
    let public = PublicKey::from(&secret);
    (secret.to_bytes(), *public.as_bytes())
}

#[test]
fn test_envelope_flow() {
    // Recipient Setup
    let (rec_secret, rec_pub) = x25519_keypair();

    // Data Key to Protect
    let dek = SymmetricKey::generate();

    // Seal
    let envelope = Envelope::seal(&dek, rec_pub, 9999999999).unwrap();

    // Open
    let recovered_dek = envelope.open(rec_secret).unwrap();

    assert_eq!(dek.as_bytes(), recovered_dek.as_bytes());
}

#[test]
fn test_envelope_wrong_key() {
    let (_, rec_pub) = x25519_keypair();
    let (other_secret, _) = x25519_keypair();
    let dek = SymmetricKey::generate();
    let envelope = Envelope::seal(&dek, rec_pub, 9999999999).unwrap();
    match envelope.open(other_secret) {
        Ok(_) => panic!("opening with the wrong secret key must fail"),
        Err(e) => assert_eq!(e, CryptoError::DecryptionError),
    }
}

#[test]
fn test_envelope_metadata() {
    let (_, rec_pub) = x25519_keypair();
    let dek = SymmetricKey::generate();
    let envelope = Envelope::seal(&dek, rec_pub, 1234567890).unwrap();
    assert_eq!(envelope.recipient_id, rec_pub);
    assert_eq!(envelope.expiry, 1234567890);
    assert_eq!(envelope.wrapped_key.len(), 40);
}

/// A council whose threshold (the number of shares that suffice) is `t`,
/// with secret shares for members `0..n`.
fn council(t: usize, n: usize) -> (CouncilKeySet, Vec<MemberSecret>) {
    let mut rng = rand::thread_rng();
    let sk_set = SecretKeySet::random(t - 1, &mut rng);
    let pk_bytes = bincode::serialize(&sk_set.public_keys()).unwrap();
    let key_set = CouncilKeySet::from_bytes(&pk_bytes).unwrap();
    let members = (0..n)
        .map(|i| {
            let share = sk_set.secret_key_share(i);
            let bytes = bincode::serialize(&SerdeSecret(share)).unwrap();
            MemberSecret::from_bytes(bytes).unwrap()
        })
        .collect();
    (key_set, members)
}

#[test]
fn test_threshold_flow() {
    // Council of 5 members, any 3 of whom can ratify.
    let (pk_set, members) = council(3, 5);
    assert_eq!(pk_set.threshold(), 3);

    let msg = b"Ratify Fork v2.0";

    // Members sign individually
    let vote_0 = members[0].sign(msg);
    let vote_1 = members[1].sign(msg);
    let vote_3 = members[3].sign(msg);

    // Aggregate (indices must match the key share index)
    let shares = vec![(0, vote_0), (1, vote_1), (3, vote_3)];

    let combined = CombinedSignature::combine(&pk_set, shares).expect("Aggregation failed");

    // Verify
    assert!(pk_set.verify(msg, &combined));
}

#[test]
fn test_threshold_too_few_shares() {
    let (pk_set, members) = council(3, 5);
    let msg = b"Ratify Fork v2.0";
    let vote_0 = members[0].sign(msg);
    let vote_1 = members[1].sign(msg);
    let shares = vec![(0, vote_0), (1, vote_1)];
    let result = CombinedSignature::combine(&pk_set, shares);
    assert_eq!(result.unwrap_err(), CryptoError::ThresholdError);
}

#[test]
fn test_threshold_duplicate_index() {
    let (pk_set, members) = council(3, 5);
    let msg = b"Ratify Fork v2.0";
    let vote_0 = members[0].sign(msg);
    let vote_1 = members[1].sign(msg);
    let shares = vec![(0, vote_0.clone()), (0, vote_0), (1, vote_1)];
    let result = CombinedSignature::combine(&pk_set, shares);
    assert_eq!(result.unwrap_err(), CryptoError::ThresholdError);
}

#[test]
fn test_threshold_order_independent() {
    let (pk_set, members) = council(3, 5);
    let msg = b"Ratify Fork v2.0";
    let vote_0 = members[0].sign(msg);
    let vote_1 = members[1].sign(msg);
    let vote_3 = members[3].sign(msg);
    let a = CombinedSignature::combine(
        &pk_set,
        vec![(0, vote_0.clone()), (1, vote_1.clone()), (3, vote_3.clone())],
    )
    .unwrap();
    let b = CombinedSignature::combine(&pk_set, vec![(3, vote_3), (0, vote_0), (1, vote_1)])
        .unwrap();
    assert_eq!(a.to_bytes(), b.to_bytes());
}

#[test]
fn test_threshold_order_independent_oversupplied() {
    // More votes than the threshold: every order still aggregates the same
    // pairs — the three with the smallest indices — and combines equally.
    let (pk_set, members) = council(3, 5);
    let msg = b"Ratify Fork v2.0";
    let votes: Vec<_> = (0..5).map(|i| members[i].sign(msg)).collect();
    let a = CombinedSignature::combine(
        &pk_set,
        vec![
            (4, votes[4].clone()),
            (2, votes[2].clone()),
            (0, votes[0].clone()),
            (3, votes[3].clone()),
            (1, votes[1].clone()),
        ],
    )
    .unwrap();
    let b = CombinedSignature::combine(
        &pk_set,
        vec![
            (1, votes[1].clone()),
            (3, votes[3].clone()),
            (0, votes[0].clone()),
            (2, votes[2].clone()),
            (4, votes[4].clone()),
        ],
    )
    .unwrap();
    assert_eq!(a.to_bytes(), b.to_bytes());
    assert!(pk_set.verify(msg, &a));
}

#[test]
fn test_threshold_wrong_message_fails() {
    let (pk_set, members) = council(2, 3);
    let vote_0 = members[0].sign(b"proposal A");
    let vote_1 = members[1].sign(b"proposal A");
    let combined = CombinedSignature::combine(&pk_set, vec![(0, vote_0), (1, vote_1)]).unwrap();
    assert!(pk_set.verify(b"proposal A", &combined));
    assert!(!pk_set.verify(b"proposal B", &combined));
}

#[test]
fn test_keyset_bytes_stability() {
    // The encoding survives a read-write round trip byte for byte.
    let (pk_set, _) = council(2, 3);
    let bytes = pk_set.to_bytes();
    let reread = CouncilKeySet::from_bytes(&bytes).unwrap();
    assert_eq!(reread.to_bytes(), bytes);
    assert_eq!(reread.threshold(), pk_set.threshold());
}

#[test]
fn test_threshold_rejects_malformed_bytes() {
    assert!(CouncilKeySet::from_bytes(&[1, 2, 3]).is_err());
    // an empty commitment decodes but has no public key and no threshold
    assert!(CouncilKeySet::from_bytes(&[0u8; 8]).is_err());
    assert!(MemberSecret::from_bytes(vec![4, 5, 6]).is_err());
    assert!(PartialVote::from_bytes(vec![7, 8, 9]).is_err());
}

#[test]
fn test_partial_vote_bytes_roundtrip() {
    let (_, members) = council(2, 3);
    let vote = members[0].sign(b"msg");
    let bytes = vote.to_bytes();
    let back = PartialVote::from_bytes(bytes.clone()).unwrap();
    assert_eq!(back.to_bytes(), bytes);
}
