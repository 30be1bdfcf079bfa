//! Content addressing: a 32-byte BLAKE3 digest that identifies a byte string
//! and checks its integrity.

use vstd::prelude::*;
use crate::hexstr::{decode_hex, encode_hex, hex_bytes, hex_of, valid_hex};

verus! {

/// The BLAKE3 digest of a byte string: a pure function of the input alone,
/// 32 bytes long.
pub uninterp spec fn blake3_of(data: Seq<u8>) -> Seq<u8>;

/// Relies on blake3::hash: the digest is 32 bytes and depends on the input
/// bytes alone.
#[verifier::external_body]
fn blake3_hash(data: &[u8]) -> (r: [u8; 32])
    ensures
        r@ == blake3_of(data@),
{
    *blake3::hash(data).as_bytes()
}

/// A 32-byte BLAKE3 hash used for content addressing and integrity checks.
#[derive(Clone, Copy, PartialEq, Eq, Hash, Debug)]
pub struct ContentHash {
    digest: [u8; 32],
}

impl View for ContentHash {
    type V = Seq<u8>;

    closed spec fn view(&self) -> Seq<u8> {
        self.digest@
    }
}

impl ContentHash {
    /// Compute the BLAKE3 hash of a byte slice. The result is a function of
    /// the input bytes alone, so repeated calls on equal bytes agree.
    pub fn hash(data: &[u8]) -> (r: Self)
        ensures
            r@ == blake3_of(data@),
            r@.len() == 32,
    {
        let digest = blake3_hash(data);
        ContentHash { digest }
    }

    /// Returns the raw bytes of the hash.
    pub fn as_bytes(&self) -> (r: &[u8; 32])
        ensures
            r@ == self@,
    {
        &self.digest
    }

    /// Create a ContentHash from raw bytes.
    pub fn from_bytes(bytes: [u8; 32]) -> (r: Self)
        ensures
            r@ == bytes@,
    {
        ContentHash { digest: bytes }
    }

    /// The lowercase hex text of the digest, as manifests embed it.
    pub fn to_hex(&self) -> (r: String)
        ensures
            r@ == hex_of(self@),
    {
        encode_hex(self.digest.as_slice())
    }

    /// Read a digest back from hex text; rejects text that does not decode
    /// to exactly 32 bytes.
    pub fn from_hex(s: &str) -> (r: Option<Self>)
        ensures
            r is Some <==> valid_hex(s@) && s@.len() == 64,
            r matches Some(h) ==> h@ == hex_bytes(s@),
    {
        match decode_hex(s) {
            Some(bytes) => {
                if bytes.len() == 32 {
                    let mut digest = [0u8; 32];
                    let mut i: usize = 0;
                    while i < 32
                        invariant
                            i <= 32,
                            bytes@.len() == 32,
                            digest@.len() == 32,
                            forall|j: int| 0 <= j < i ==> digest@[j] == bytes@[j],
                        decreases 32 - i,
                    {
                        digest[i] = bytes[i];
                        i = i + 1;
                    }
                    proof {
                        assert(digest@ =~= bytes@);
                    }
                    Some(ContentHash { digest })
                } else {
                    None
                }
            },
            None => None,
        }
    }
}

} // verus!
