//! Scoring of candidate digests.
//!
//! A candidate digest is canonicalized, concatenated with the nonce bytes,
//! and hashed with keccak-256; the difficulty of the resulting hash is its
//! count of leading zero bits. The submitted solution is re-scored by an
//! external verifier with the same rule, so the hash must be reproduced
//! bit-for-bit: the keccak call is delegated to the same library the
//! verifier uses.

use vstd::prelude::*;
use vstd::std_specs::bits::u8_leading_zeros;
use crate::digest::canon_spec;
use crate::digest::canonicalize;

verus! {

/// The keccak-256 hash of a byte string, as computed by the external
/// hashing library; a function of the bytes alone.
pub uninterp spec fn keccak_of(bytes: Seq<u8>) -> Seq<u8>;

/// Relies on solana keccak hashv: it returns the keccak-256 hash of the
/// concatenation of the given slices, 32 bytes.
#[verifier::external_body]
fn keccak_pair(a: &[u8], b: &[u8]) -> (r: [u8; 32])
    ensures
        r@ == keccak_of(a@ + b@),
{
    solana_program::keccak::hashv(&[a, b]).to_bytes()
}

/// The scoring hash of a digest and a nonce: keccak-256 over the canonical
/// form of the digest followed by the nonce bytes.
#[verifier::opaque]
pub open spec fn score_hash_spec(d: Seq<u8>, nonce: Seq<u8>) -> Seq<u8> {
    keccak_of(canon_spec(d) + nonce)
}

/// Computes the scoring hash of a digest for a nonce. The digest is
/// canonicalized first, so reordered encodings of the same words score
/// identically.
pub fn score_hash(digest: &[u8; 16], nonce: &[u8; 8]) -> (r: [u8; 32])
    ensures
        r@ == score_hash_spec(digest@, nonce@),
{
    proof {
        reveal(crate::hashing::score_hash_spec);
    }
    let c = canonicalize(*digest);
    keccak_pair(c.as_slice(), nonce.as_slice())
}

/// The number of leading zero bits of a byte string.
pub open spec fn leading_zero_bits(h: Seq<u8>) -> nat
    decreases h.len(),
{
    if h.len() == 0 {
        0
    } else if u8_leading_zeros(h[0]) < 8 {
        u8_leading_zeros(h[0]) as nat
    } else {
        8 + leading_zero_bits(h.drop_first())
    }
}

/// Relies on drillx::difficulty: it returns the number of leading zero bits
/// of the 32-byte hash, the same rule the external verifier re-scores with.
#[verifier::external_body]
pub(crate) fn difficulty(hash: &[u8; 32]) -> (r: u32)
    ensures
        r as nat == leading_zero_bits(hash@),
{
    drillx::difficulty(*hash)
}

/// Law: the scoring hash is deterministic. Two results obtained for the
/// same digest and nonce bytes are equal.
pub proof fn lemma_score_hash_deterministic(d: Seq<u8>, nonce: Seq<u8>, r1: Seq<u8>, r2: Seq<u8>)
    requires
        r1 == score_hash_spec(d, nonce),
        r2 == score_hash_spec(d, nonce),
    ensures
        r1 == r2,
{
}

/// Law: the scoring hash is malleability-resistant. Two digests carrying
/// the same multiset of words score identically under every nonce.
pub proof fn lemma_score_hash_word_permutation(d1: Seq<u8>, d2: Seq<u8>, nonce: Seq<u8>)
    requires
        d1.len() == 16,
        d2.len() == 16,
        crate::digest::words_of(d1).to_multiset() == crate::digest::words_of(d2).to_multiset(),
    ensures
        score_hash_spec(d1, nonce) == score_hash_spec(d2, nonce),
{
    reveal(crate::hashing::score_hash_spec);
    crate::digest::lemma_canonicalize_permutation(d1, d2);
}

} // verus!
