//! Threshold signatures: each council member holds an independent secret
//! share, any member can partially sign a message, and a quorum of distinct
//! partial votes combines into one aggregate signature verifiable against
//! the council's public key set alone. Key sets, shares and signatures
//! cross this module's boundary as their stable binary encodings.

use vstd::prelude::*;
use vstd::slice::slice_to_vec;
use crate::CryptoError;
use threshold_crypto::{PublicKeySet, SecretKeyShare, Signature, SignatureShare};

verus! {

/// Whether bytes decode to a usable council public key set
/// (threshold_crypto::PublicKeySet under bincode) whose commitment holds at
/// least one coefficient — an empty commitment encodes, but has no public
/// key and no threshold. Pure in the bytes.
pub uninterp spec fn pks_decodes(bytes: Seq<u8>) -> bool;

/// The threshold parameter `t` stored in an encoded key set: the degree of
/// the committed polynomial, so that `t + 1` distinct shares reconstruct a
/// signature. Pure in the bytes.
pub uninterp spec fn pks_threshold(bytes: Seq<u8>) -> usize;

/// Whether encoded signature bytes verify a message under an encoded key
/// set's public key: pure in its arguments, false whenever the signature
/// bytes do not decode.
pub uninterp spec fn pks_verify(ks: Seq<u8>, msg: Seq<u8>, sig: Seq<u8>) -> bool;

/// Whether bytes decode to a member's secret key share
/// (threshold_crypto::SecretKeyShare under bincode): pure in the bytes.
pub uninterp spec fn share_decodes(bytes: Seq<u8>) -> bool;

/// The encoded signature share that an encoded secret share produces on a
/// message: deterministic BLS signing, pure in share and message.
pub uninterp spec fn share_sig(share: Seq<u8>, msg: Seq<u8>) -> Seq<u8>;

/// Whether bytes decode to a signature share
/// (threshold_crypto::SignatureShare under bincode): pure in the bytes.
pub uninterp spec fn sig_share_decodes(bytes: Seq<u8>) -> bool;

/// The encoded secret key share at an index of the key set whose public
/// commitments an encoded key set holds. The committed polynomial
/// determines its secret coefficients uniquely, so this is a pure function
/// of key-set bytes and index.
pub uninterp spec fn sk_share_of(ks: Seq<u8>, i: usize) -> Seq<u8>;

/// The encoded aggregate signature that combining a set of (index, share)
/// pairs under an encoded key set produces: Lagrange interpolation over a
/// set, so a pure, order-independent function of key set and pair set.
pub uninterp spec fn combined_sig(ks: Seq<u8>, shares: Set<(usize, Seq<u8>)>) -> Seq<u8>;

/// The (index, share bytes) views of a raw share list.
pub open spec fn share_views(shares: Seq<(usize, Vec<u8>)>) -> Seq<(usize, Seq<u8>)> {
    shares.map_values(|p: (usize, Vec<u8>)| (p.0, p.1@))
}

/// No index occurs twice in a share list.
pub open spec fn distinct_indices(shares: Seq<(usize, Seq<u8>)>) -> bool {
    forall|j: int, k: int|
        0 <= j < k < shares.len() ==> (#[trigger] shares[j]).0 != (#[trigger] shares[k]).0
}

/// The shares that aggregation reads: the first `t + 1` entries of the
/// list, or the whole list when it is no longer than that.
pub open spec fn shares_used(shares: Seq<(usize, Seq<u8>)>, t: usize) -> Seq<(usize, Seq<u8>)> {
    if shares.len() > t + 1 {
        shares.take(t + 1)
    } else {
        shares
    }
}

/// Each listed share is the signature of the message by the secret share
/// that the key set assigns to the listed index.
pub open spec fn shares_valid_for(
    ks: Seq<u8>,
    shares: Seq<(usize, Seq<u8>)>,
    msg: Seq<u8>,
) -> bool {
    forall|j: int|
        0 <= j < shares.len() ==> (#[trigger] shares[j]).1 == share_sig(
            sk_share_of(ks, shares[j].0),
            msg,
        )
}

/// Strictly ascending by index.
pub open spec fn index_sorted(shares: Seq<(usize, Seq<u8>)>) -> bool {
    forall|j: int, k: int|
        0 <= j < k < shares.len() ==> (#[trigger] shares[j]).0 < (#[trigger] shares[k]).0
}

/// Two strictly index-sorted pair lists of the same length holding the
/// same pairs are the same list: a pair set with distinct indices has
/// exactly one ascending arrangement.
pub proof fn lemma_index_sorted_unique(a: Seq<(usize, Seq<u8>)>, b: Seq<(usize, Seq<u8>)>)
    requires
        index_sorted(a),
        index_sorted(b),
        a.to_set() == b.to_set(),
        a.len() == b.len(),
    ensures
        a == b,
    decreases a.len(),
{
    if a.len() == 0 {
        assert(a =~= b);
    } else {
        let la = a.last();
        let lb = b.last();
        assert(a[a.len() - 1] == la);
        assert(a.contains(la));
        assert(b.to_set().contains(la));
        let j = choose|j: int| 0 <= j < b.len() && b[j] == la;
        assert(b[b.len() - 1] == lb);
        assert(b.contains(lb));
        assert(a.to_set().contains(lb));
        let i = choose|i: int| 0 <= i < a.len() && a[i] == lb;
        if j < b.len() - 1 {
            // la would sit strictly below b's last, yet b's last sits at or
            // below a's last
            assert(b[j].0 < lb.0);
            if i < a.len() - 1 {
                assert(a[i].0 < la.0);
            }
            assert(false);
        }
        assert(lb == la);
        let a2 = a.drop_last();
        let b2 = b.drop_last();
        assert forall|y: (usize, Seq<u8>)| a2.to_set().contains(y) implies b2.to_set().contains(
            y,
        ) by {
            let p = choose|p: int| 0 <= p < a2.len() && a2[p] == y;
            assert(a[p] == y);
            assert(y.0 < la.0);
            assert(a.contains(y));
            assert(b.to_set().contains(y));
            let q = choose|q: int| 0 <= q < b.len() && b[q] == y;
            assert(q < b.len() - 1);
            assert(b2[q] == y);
            assert(b2.contains(y));
        }
        assert forall|y: (usize, Seq<u8>)| b2.to_set().contains(y) implies a2.to_set().contains(
            y,
        ) by {
            let p = choose|p: int| 0 <= p < b2.len() && b2[p] == y;
            assert(b[p] == y);
            assert(y.0 < lb.0);
            assert(b.contains(y));
            assert(a.to_set().contains(y));
            let q = choose|q: int| 0 <= q < a.len() && a[q] == y;
            assert(q < a.len() - 1);
            assert(a2[q] == y);
            assert(a2.contains(y));
        }
        assert(a2.to_set() =~= b2.to_set());
        lemma_index_sorted_unique(a2, b2);
        assert forall|x: int| 0 <= x < a.len() implies a[x] == b[x] by {
            if x < a.len() - 1 {
                assert(a2[x] == b2[x]);
            }
        }
        assert(a =~= b);
    }
}

/// Splicing a pair into a pair list adds it to the pair set.
proof fn lemma_insert_pair_set(s: Seq<(usize, Seq<u8>)>, k: int, x: (usize, Seq<u8>))
    requires
        0 <= k <= s.len(),
    ensures
        s.insert(k, x).to_set() == s.to_set().insert(x),
{
    s.insert_ensures(k, x);
    let t = s.insert(k, x);
    assert forall|y: (usize, Seq<u8>)| t.to_set().contains(y) implies s.to_set().insert(
        x,
    ).contains(y) by {
        let i = choose|i: int| 0 <= i < t.len() && t[i] == y;
        if i < k {
            assert(s[i] == y);
            assert(s.contains(y));
        } else if i > k {
            assert(t[(i - 1) + 1] == s[i - 1]);
            assert(s.contains(y));
        }
    }
    assert forall|y: (usize, Seq<u8>)| s.to_set().insert(x).contains(y) implies t.to_set().contains(
        y,
    ) by {
        if y == x {
            assert(t[k] == y);
            assert(t.contains(y));
        } else {
            let i = choose|i: int| 0 <= i < s.len() && s[i] == y;
            if i < k {
                assert(t[i] == y);
            } else {
                assert(t[i + 1] == y);
            }
            assert(t.contains(y));
        }
    }
    assert(t.to_set() =~= s.to_set().insert(x));
}

/// Splicing a pair between smaller and larger indices keeps the list
/// strictly ascending.
proof fn lemma_insert_sorted(s: Seq<(usize, Seq<u8>)>, k: int, x: (usize, Seq<u8>))
    requires
        0 <= k <= s.len(),
        index_sorted(s),
        forall|j: int| 0 <= j < k ==> (#[trigger] s[j]).0 < x.0,
        forall|j: int| k <= j < s.len() ==> x.0 < (#[trigger] s[j]).0,
    ensures
        index_sorted(s.insert(k, x)),
{
    s.insert_ensures(k, x);
    let t = s.insert(k, x);
    assert forall|a: int, b: int| 0 <= a < b < t.len() implies (#[trigger] t[a]).0 < (
    #[trigger] t[b]).0 by {
        if a < k {
            assert(t[a] == s[a]);
        } else if a > k {
            assert(t[(a - 1) + 1] == s[a - 1]);
        }
        if b < k {
            assert(t[b] == s[b]);
        } else if b > k {
            assert(t[(b - 1) + 1] == s[b - 1]);
        }
    }
}

/// The views of a splice are the splice of the views.
proof fn lemma_views_insert(s: Seq<(usize, Vec<u8>)>, k: int, x: (usize, Vec<u8>))
    requires
        0 <= k <= s.len(),
    ensures
        share_views(s.insert(k, x)) == share_views(s).insert(k, (x.0, x.1@)),
{
    s.insert_ensures(k, x);
    share_views(s).insert_ensures(k, (x.0, x.1@));
    assert forall|i: int| 0 <= i < s.len() + 1 implies share_views(s.insert(k, x))[i]
        == share_views(s).insert(k, (x.0, x.1@))[i] by {
        if i > k {
            assert(s.insert(k, x)[(i - 1) + 1] == s[i - 1]);
            assert(share_views(s).insert(k, (x.0, x.1@))[(i - 1) + 1] == share_views(s)[i - 1]);
        }
    }
    assert(share_views(s.insert(k, x)) =~= share_views(s).insert(k, (x.0, x.1@)));
}

/// Appending a vote adds its view to the pair set.
proof fn lemma_vote_views_push_set(s: Seq<(usize, PartialVote)>, x: (usize, PartialVote))
    ensures
        vote_views(s.push(x)).to_set() == vote_views(s).to_set().insert((x.0, x.1@)),
{
    assert(vote_views(s.push(x)) =~= vote_views(s).push((x.0, x.1@)));
    assert(vote_views(s).push((x.0, x.1@)) =~= vote_views(s).insert(
        vote_views(s).len() as int,
        (x.0, x.1@),
    ));
    lemma_insert_pair_set(vote_views(s), vote_views(s).len() as int, (x.0, x.1@));
}

/// Relies on bincode::deserialize and serialize of
/// threshold_crypto::PublicKeySet: whether the bytes decode is a pure
/// property of the bytes, and a decoded set's commitment is empty exactly
/// when it re-serializes to the bare 8-byte vector-length prefix — such a
/// set is rejected, since its public key and threshold are undefined.
#[verifier::external_body]
fn tc_check_pks(bytes: &[u8]) -> (r: bool)
    ensures
        r == pks_decodes(bytes@),
{
    match bincode::deserialize::<PublicKeySet>(bytes) {
        Ok(pks) => match bincode::serialize(&pks) {
            Ok(encoded) => encoded.len() > 8,
            Err(_) => false,
        },
        Err(_) => false,
    }
}

/// Relies on bincode::deserialize::<threshold_crypto::SecretKeyShare>:
/// whether the bytes decode is a pure property of the bytes.
#[verifier::external_body]
fn tc_check_share(bytes: &[u8]) -> (r: bool)
    ensures
        r == share_decodes(bytes@),
{
    bincode::deserialize::<SecretKeyShare>(bytes).is_ok()
}

/// Relies on bincode::deserialize::<threshold_crypto::SignatureShare>:
/// whether the bytes decode is a pure property of the bytes.
#[verifier::external_body]
fn tc_check_sig_share(bytes: &[u8]) -> (r: bool)
    ensures
        r == sig_share_decodes(bytes@),
{
    bincode::deserialize::<SignatureShare>(bytes).is_ok()
}

/// Relies on threshold_crypto::PublicKeySet::threshold: the stored degree
/// of the commitment polynomial, one less than the length of its non-empty
/// coefficient vector, so always below usize::MAX.
#[verifier::external_body]
fn tc_threshold(bytes: &Vec<u8>) -> (r: usize)
    requires
        pks_decodes(bytes@),
    ensures
        r == pks_threshold(bytes@),
        r < usize::MAX,
{
    let pks: PublicKeySet = bincode::deserialize(bytes).expect("checked by the caller");
    pks.threshold()
}

/// Relies on threshold_crypto::PublicKey::verify (deterministic BLS
/// verification) and on bincode for the key-set and signature encodings;
/// signature bytes that do not decode verify nothing.
#[verifier::external_body]
fn tc_verify(ks: &Vec<u8>, message: &[u8], sig: &Vec<u8>) -> (r: bool)
    requires
        pks_decodes(ks@),
    ensures
        r == pks_verify(ks@, message@, sig@),
{
    let pks: PublicKeySet = bincode::deserialize(ks).expect("checked by the caller");
    match bincode::deserialize::<Signature>(sig) {
        Ok(s) => pks.public_key().verify(&s, message),
        Err(_) => false,
    }
}

/// Relies on threshold_crypto::SecretKeyShare::sign: deterministic BLS
/// share signing, a pure function of share and message; and on bincode for
/// the share and signature-share encodings, which never fail to serialize.
#[verifier::external_body]
fn tc_sign_share(share_bytes: &Vec<u8>, message: &[u8]) -> (r: Vec<u8>)
    requires
        share_decodes(share_bytes@),
    ensures
        r@ == share_sig(share_bytes@, message@),
        sig_share_decodes(r@),
{
    let share: SecretKeyShare = bincode::deserialize(share_bytes).expect("checked by the caller");
    bincode::serialize(&share.sign(message)).expect("a signature share always serializes")
}

/// Relies on threshold_crypto::PublicKeySet::combine_signatures: it reads
/// the first threshold-plus-one entries and fails exactly when given
/// fewer. When the indices it reads are distinct it interpolates over that
/// set of pairs order-independently, and — as its documentation states —
/// yields a signature that verifies under the set's public key whenever
/// the shares read are the matching secret shares' signatures of one
/// message. Of a duplicated index it detects nothing; the caller excludes
/// that case. Also relies on bincode for the encodings involved.
#[verifier::external_body]
fn tc_combine(ks_bytes: &Vec<u8>, shares: &Vec<(usize, Vec<u8>)>) -> (r: Option<Vec<u8>>)
    requires
        pks_decodes(ks_bytes@),
        forall|j: int| 0 <= j < shares@.len() ==> sig_share_decodes((#[trigger] shares@[j]).1@),
    ensures
        r is Some <==> share_views(shares@).len() > pks_threshold(ks_bytes@),
        r matches Some(c) ==> distinct_indices(
            shares_used(share_views(shares@), pks_threshold(ks_bytes@)),
        ) ==> c@ == combined_sig(
            ks_bytes@,
            shares_used(share_views(shares@), pks_threshold(ks_bytes@)).to_set(),
        ),
        r matches Some(c) ==> distinct_indices(
            shares_used(share_views(shares@), pks_threshold(ks_bytes@)),
        ) ==> forall|msg: Seq<u8>|
            (forall|j: int|
                0 <= j < shares_used(share_views(shares@), pks_threshold(ks_bytes@)).len()
                    ==> (#[trigger] shares_used(share_views(shares@), pks_threshold(ks_bytes@))[j]).1
                    == share_sig(
                    sk_share_of(
                        ks_bytes@,
                        shares_used(share_views(shares@), pks_threshold(ks_bytes@))[j].0,
                    ),
                    msg,
                )) ==> pks_verify(ks_bytes@, msg, c@),
{
    let pks: PublicKeySet = bincode::deserialize(ks_bytes).expect("checked by the caller");
    let parsed: Vec<(usize, SignatureShare)> = shares
        .iter()
        .map(|(i, b)| (*i, bincode::deserialize::<SignatureShare>(b).expect("checked by the caller")))
        .collect();
    match pks.combine_signatures(parsed.iter().map(|(i, s)| (*i, s))) {
        Ok(sig) => Some(bincode::serialize(&sig).expect("a signature always serializes")),
        Err(_) => None,
    }
}

/// A wrapper around the council's aggregated public key set, carried as its
/// stable binary encoding.
#[derive(Debug)]
pub struct CouncilKeySet {
    bytes: Vec<u8>,
}

impl Clone for CouncilKeySet {
    fn clone(&self) -> (r: Self)
        ensures
            r@ == self@,
    {
        proof {
            use_type_invariant(&*self);
        }
        CouncilKeySet { bytes: slice_to_vec(self.bytes.as_slice()) }
    }
}

impl View for CouncilKeySet {
    type V = Seq<u8>;

    closed spec fn view(&self) -> Seq<u8> {
        self.bytes@
    }
}

/// The number of shares that reconstruct a signature under an encoded key
/// set: one more than the stored polynomial degree.
pub open spec fn min_shares(ks: Seq<u8>) -> int {
    pks_threshold(ks) + 1
}

impl CouncilKeySet {
    #[verifier::type_invariant]
    spec fn wf(self) -> bool {
        pks_decodes(self@)
    }

    /// Create from raw bytes (usually from on-chain storage); rejects bytes
    /// that are no key-set encoding.
    pub fn from_bytes(bytes: &[u8]) -> (r: Result<Self, CryptoError>)
        ensures
            r is Ok <==> pks_decodes(bytes@),
            r matches Ok(ks) ==> ks@ == bytes@,
            r matches Err(e) ==> e == CryptoError::ThresholdError,
    {
        if tc_check_pks(bytes) {
            Ok(CouncilKeySet { bytes: slice_to_vec(bytes) })
        } else {
            Err(CryptoError::ThresholdError)
        }
    }

    /// The stored encoding, byte for byte as it was read: a round trip
    /// through this type never rewrites ledger storage, and the bytes
    /// always read back as a key set.
    pub fn to_bytes(&self) -> (r: Vec<u8>)
        ensures
            r@ == self@,
            pks_decodes(r@),
    {
        proof {
            use_type_invariant(&*self);
        }
        slice_to_vec(self.bytes.as_slice())
    }

    /// Verify a fully aggregated signature from the council. True exactly
    /// when the signature verifies the message under the aggregated public
    /// key; individual member identities play no part.
    pub fn verify(&self, message: &[u8], signature: &CombinedSignature) -> (r: bool)
        ensures
            r == pks_verify(self@, message@, signature@),
    {
        proof {
            use_type_invariant(&*self);
        }
        tc_verify(&self.bytes, message, &signature.bytes)
    }

    /// The number of distinct shares required to reconstruct a signature
    /// (e.g., 3 out of 5).
    pub fn threshold(&self) -> (r: usize)
        ensures
            r == min_shares(self@),
    {
        proof {
            use_type_invariant(&*self);
        }
        let t = tc_threshold(&self.bytes);
        t + 1
    }
}

/// A single council member's secret key share, carried as its binary
/// encoding. No accessor, display or serialization path exposes it.
pub struct MemberSecret {
    bytes: Vec<u8>,
}

impl View for MemberSecret {
    type V = Seq<u8>;

    closed spec fn view(&self) -> Seq<u8> {
        self.bytes@
    }
}

impl MemberSecret {
    #[verifier::type_invariant]
    spec fn wf(self) -> bool {
        share_decodes(self@)
    }

    /// Take in a share provisioned out of band; rejects bytes that are no
    /// share encoding.
    pub fn from_bytes(bytes: Vec<u8>) -> (r: Result<Self, CryptoError>)
        ensures
            r is Ok <==> share_decodes(bytes@),
            r matches Ok(m) ==> m@ == bytes@,
            r matches Err(e) ==> e == CryptoError::ThresholdError,
    {
        if tc_check_share(bytes.as_slice()) {
            Ok(MemberSecret { bytes })
        } else {
            Err(CryptoError::ThresholdError)
        }
    }

    /// Sign a proposal hash to create a partial vote: pure, stateless and
    /// independent per member.
    pub fn sign(&self, message: &[u8]) -> (r: PartialVote)
        ensures
            r@ == share_sig(self@, message@),
    {
        proof {
            use_type_invariant(&*self);
        }
        let bytes = tc_sign_share(&self.bytes, message);
        PartialVote { bytes }
    }
}

/// A partial signature (vote) from one council member, carried as its
/// binary encoding.
#[derive(Debug)]
pub struct PartialVote {
    bytes: Vec<u8>,
}

impl Clone for PartialVote {
    fn clone(&self) -> (r: Self)
        ensures
            r@ == self@,
    {
        proof {
            use_type_invariant(&*self);
        }
        PartialVote { bytes: slice_to_vec(self.bytes.as_slice()) }
    }
}

impl View for PartialVote {
    type V = Seq<u8>;

    closed spec fn view(&self) -> Seq<u8> {
        self.bytes@
    }
}

impl PartialVote {
    #[verifier::type_invariant]
    spec fn wf(self) -> bool {
        sig_share_decodes(self@)
    }

    /// Read a vote back from transmitted bytes; rejects bytes that are no
    /// signature-share encoding.
    pub fn from_bytes(bytes: Vec<u8>) -> (r: Result<Self, CryptoError>)
        ensures
            r is Ok <==> sig_share_decodes(bytes@),
            r matches Ok(v) ==> v@ == bytes@,
            r matches Err(e) ==> e == CryptoError::ThresholdError,
    {
        if tc_check_sig_share(bytes.as_slice()) {
            Ok(PartialVote { bytes })
        } else {
            Err(CryptoError::ThresholdError)
        }
    }

    /// The vote's encoding, for transmission to an aggregator.
    pub fn to_bytes(&self) -> (r: Vec<u8>)
        ensures
            r@ == self@,
    {
        slice_to_vec(self.bytes.as_slice())
    }
}

/// The (index, vote bytes) views of a vote list.
pub open spec fn vote_views(shares: Seq<(usize, PartialVote)>) -> Seq<(usize, Seq<u8>)> {
    shares.map_values(|p: (usize, PartialVote)| (p.0, p.1@))
}

/// Law: aggregation is order-independent. Two distinct-index vote lists
/// holding the same set of (index, vote) pairs have the same length, so
/// `combine` gives both the same contract word for word: the same success
/// condition, and — through the unique ascending arrangement of the pairs
/// that the contract speaks of — the same combined signature.
pub proof fn lemma_combine_order_independent(a: Seq<(usize, Seq<u8>)>, b: Seq<(usize, Seq<u8>)>)
    requires
        distinct_indices(a),
        distinct_indices(b),
        a.to_set() == b.to_set(),
    ensures
        a.len() == b.len(),
{
    // distinct indices leave no room for a repeated pair, so each list is
    // exactly as long as the pair set both share
    assert forall|i: int, j: int|
        0 <= i < a.len() && 0 <= j < a.len() && i != j implies a[i] != a[j] by {
        if i < j {
            assert(a[i].0 != a[j].0);
        } else {
            assert(a[j].0 != a[i].0);
        }
    }
    assert forall|i: int, j: int|
        0 <= i < b.len() && 0 <= j < b.len() && i != j implies b[i] != b[j] by {
        if i < j {
            assert(b[i].0 != b[j].0);
        } else {
            assert(b[j].0 != b[i].0);
        }
    }
    a.unique_seq_to_set();
    b.unique_seq_to_set();
}

/// Whether all indices in a vote list are distinct.
fn indices_distinct(shares: &Vec<(usize, PartialVote)>) -> (r: bool)
    ensures
        r == distinct_indices(vote_views(shares@)),
{
    let mut i: usize = 0;
    while i < shares.len()
        invariant
            i <= shares@.len(),
            forall|j: int, k: int|
                0 <= j < k < i ==> (#[trigger] shares@[j]).0 != (#[trigger] shares@[k]).0,
        decreases shares@.len() - i,
    {
        let mut j: usize = 0;
        while j < i
            invariant
                j <= i < shares@.len(),
                forall|l: int| 0 <= l < j ==> (#[trigger] shares@[l]).0 != shares@[i as int].0,
            decreases i - j,
        {
            if shares[j].0 == shares[i].0 {
                proof {
                    assert(vote_views(shares@)[j as int].0 == vote_views(shares@)[i as int].0);
                }
                return false;
            }
            j = j + 1;
        }
        i = i + 1;
    }
    proof {
        assert forall|j: int, k: int| 0 <= j < k < vote_views(shares@).len() implies (
        #[trigger] vote_views(shares@)[j]).0 != (#[trigger] vote_views(shares@)[k]).0 by {
            assert(shares@[j].0 != shares@[k].0);
        }
    }
    true
}

/// The final aggregated signature representing the council's will, carried
/// as its binary encoding.
#[derive(Clone, Debug)]
pub struct CombinedSignature {
    bytes: Vec<u8>,
}

impl View for CombinedSignature {
    type V = Seq<u8>;

    closed spec fn view(&self) -> Seq<u8> {
        self.bytes@
    }
}

impl CombinedSignature {
    /// Aggregate partial votes into a final signature.
    ///
    /// Succeeds exactly when at least `key_set.threshold()` votes are given
    /// and no index repeats. The votes are arranged in ascending index
    /// order before aggregation, so the result is a function of the set of
    /// (index, vote) pairs alone — the contract speaks of the unique
    /// ascending arrangement of that set — and verifies under the key set
    /// whenever the votes are the matching secret shares' signatures of
    /// the verified message. A vote that is no signature of the verified
    /// message by its index's share cannot be detected here — no message is
    /// given at aggregation time — so it surfaces as a combined signature
    /// that fails `verify`.
    pub fn combine(key_set: &CouncilKeySet, shares: Vec<(usize, PartialVote)>) -> (r: Result<
        Self,
        CryptoError,
    >)
        ensures
            ({
                let sv = vote_views(shares@);
                let t = pks_threshold(key_set@);
                &&& (r is Ok <==> sv.len() > t && distinct_indices(sv))
                &&& (r matches Ok(c) ==> forall|canon: Seq<(usize, Seq<u8>)>|
                    (index_sorted(canon) && canon.to_set() == sv.to_set() && canon.len()
                        == sv.len()) ==> c@ == combined_sig(
                        key_set@,
                        shares_used(canon, t).to_set(),
                    ))
                &&& (r matches Ok(c) ==> forall|msg: Seq<u8>|
                    shares_valid_for(key_set@, sv, msg) ==> pks_verify(key_set@, msg, c@))
                &&& (r matches Err(e) ==> e == CryptoError::ThresholdError)
            }),
    {
        proof {
            use_type_invariant(&*key_set);
        }
        if !indices_distinct(&shares) {
            return Err(CryptoError::ThresholdError);
        }
        let ghost sv = vote_views(shares@);
        let mut sorted: Vec<(usize, Vec<u8>)> = Vec::new();
        let mut i: usize = 0;
        while i < shares.len()
            invariant
                i <= shares@.len(),
                sorted@.len() == i as int,
                sv == vote_views(shares@),
                distinct_indices(sv),
                index_sorted(share_views(sorted@)),
                share_views(sorted@).to_set() == vote_views(shares@.take(i as int)).to_set(),
                forall|j: int| 0 <= j < sorted@.len() ==> sig_share_decodes(
                    (#[trigger] sorted@[j]).1@,
                ),
            decreases shares@.len() - i,
        {
            let pair = &shares[i];
            proof {
                use_type_invariant(&pair.1);
            }
            let bytes = pair.1.to_bytes();
            let idx = pair.0;
            let ghost bv = bytes@;
            let mut pos: usize = 0;
            while pos < sorted.len() && sorted[pos].0 < idx
                invariant
                    pos <= sorted@.len(),
                    forall|j: int| 0 <= j < pos ==> (#[trigger] sorted@[j]).0 < idx,
                decreases sorted@.len() - pos,
            {
                pos = pos + 1;
            }
            let ghost pre = sorted@;
            proof {
                // idx never reoccurs among the votes already placed, so
                // everything at or past the insertion point sits strictly
                // above it
                assert forall|j: int| pos <= j < pre.len() implies idx < (
                #[trigger] share_views(pre)[j]).0 by {
                    let p = share_views(pre)[j];
                    if p.0 == idx {
                        assert(share_views(pre).contains(p));
                        assert(vote_views(shares@.take(i as int)).to_set().contains(p));
                        let k = choose|k: int|
                            0 <= k < vote_views(shares@.take(i as int)).len() && vote_views(
                                shares@.take(i as int),
                            )[k] == p;
                        assert((sv[k]).0 == idx);
                        assert((sv[i as int]).0 == idx);
                        assert(false);
                    }
                    if j > pos {
                        assert(share_views(pre)[pos as int].0 < share_views(pre)[j].0);
                    }
                    assert(share_views(pre)[pos as int].0 == pre[pos as int].0);
                }
            }
            sorted.insert(pos, (idx, bytes));
            i = i + 1;
            proof {
                lemma_views_insert(pre, pos as int, (idx, bytes));
                lemma_insert_sorted(share_views(pre), pos as int, (idx, bv));
                lemma_insert_pair_set(share_views(pre), pos as int, (idx, bv));
                lemma_vote_views_push_set(shares@.take(i - 1), shares@[i - 1]);
                assert(shares@.take(i as int) =~= shares@.take(i - 1).push(shares@[i - 1]));
                assert((idx, bv) == (vote_views(shares@)[i - 1]));
                assert(vote_views(shares@)[i - 1] == vote_views(shares@.take(i as int))[i - 1]);
                pre.insert_ensures(pos as int, (idx, bytes));
                assert forall|j: int| 0 <= j < sorted@.len() implies sig_share_decodes(
                    (#[trigger] sorted@[j]).1@,
                ) by {
                    if j > pos {
                        assert(sorted@[(j - 1) + 1] == pre[j - 1]);
                    }
                }
            }
        }
        proof {
            assert(shares@.take(shares@.len() as int) =~= shares@);
        }
        let ghost sviews = share_views(sorted@);
        let ghost t = pks_threshold(key_set@);
        proof {
            assert(sviews.len() == sv.len());
            assert forall|a: int, b: int|
                0 <= a < b < shares_used(sviews, t).len() implies (
            #[trigger] shares_used(sviews, t)[a]).0 != (#[trigger] shares_used(sviews, t)[b]).0 by {
                assert(shares_used(sviews, t)[a] == sviews[a]);
                assert(shares_used(sviews, t)[b] == sviews[b]);
            }
        }
        match tc_combine(&key_set.bytes, &sorted) {
            Some(bytes) => {
                proof {
                    assert forall|canon: Seq<(usize, Seq<u8>)>|
                        (index_sorted(canon) && canon.to_set() == sv.to_set() && canon.len()
                            == sv.len()) implies bytes@ == combined_sig(
                        key_set@,
                        shares_used(canon, t).to_set(),
                    ) by {
                        lemma_index_sorted_unique(canon, sviews);
                    }
                    assert forall|msg: Seq<u8>| shares_valid_for(key_set@, sv, msg) implies pks_verify(
                        key_set@,
                        msg,
                        bytes@,
                    ) by {
                        assert forall|j: int| 0 <= j < shares_used(sviews, t).len() implies (
                        #[trigger] shares_used(sviews, t)[j]).1 == share_sig(
                            sk_share_of(key_set@, shares_used(sviews, t)[j].0),
                            msg,
                        ) by {
                            let p = shares_used(sviews, t)[j];
                            assert(sviews[j] == p);
                            assert(sviews.contains(p));
                            assert(sv.to_set().contains(p));
                            let k = choose|k: int| 0 <= k < sv.len() && sv[k] == p;
                            assert((sv[k]).1 == share_sig(sk_share_of(key_set@, sv[k].0), msg));
                        }
                    }
                }
                Ok(CombinedSignature { bytes })
            },
            None => Err(CryptoError::ThresholdError),
        }
    }

    /// The signature's encoding, for transmission or storage.
    pub fn to_bytes(&self) -> (r: Vec<u8>)
        ensures
            r@ == self@,
    {
        slice_to_vec(self.bytes.as_slice())
    }
}

} // verus!
