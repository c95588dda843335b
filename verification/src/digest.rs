//! Canonical digest construction.
//!
//! A digest is 16 bytes holding eight little-endian 16-bit words. Before a
//! digest is scored it is canonicalized: the words are sorted ascending, so
//! that every ordering of the same words scores identically and a solution
//! cannot be resubmitted under a reordered digest.

use vstd::prelude::*;
use vstd::relations::{sorted_by, total_ordering};
use vstd::seq_lib::lemma_sorted_unique;

verus! {

/// The order by which digest words are canonically arranged: ascending.
pub open spec fn word_order() -> spec_fn(u16, u16) -> bool {
    |x: u16, y: u16| x <= y
}

pub proof fn lemma_word_order_total()
    ensures
        total_ordering(word_order()),
{
}

/// Word `i` of a 16-byte digest, read little-endian.
pub open spec fn word_at(d: Seq<u8>, i: int) -> u16
    recommends
        d.len() == 16,
        0 <= i < 8,
{
    (d[2 * i] + 256 * d[2 * i + 1]) as u16
}

/// The eight 16-bit words of a digest.
pub open spec fn words_of(d: Seq<u8>) -> Seq<u16> {
    Seq::new(8, |i: int| word_at(d, i))
}

/// The 16 bytes encoding a sequence of eight words, little-endian.
pub open spec fn bytes_of(w: Seq<u16>) -> Seq<u8> {
    Seq::new(
        16,
        |i: int|
            if i % 2 == 0 {
                ((w[i / 2] as int) % 256) as u8
            } else {
                ((w[i / 2] as int) / 256) as u8
            },
    )
}

/// A digest in canonical form: its words sorted ascending, re-encoded.
pub open spec fn canon_spec(d: Seq<u8>) -> Seq<u8> {
    bytes_of(words_of(d).sort_by(word_order()))
}

/// Decoding the bytes of an eight-word encoding yields the words back.
pub proof fn lemma_words_bytes_roundtrip(w: Seq<u16>)
    requires
        w.len() == 8,
    ensures
        words_of(bytes_of(w)) == w,
{
    assert forall|i: int| 0 <= i < 8 implies words_of(bytes_of(w))[i] == w[i] by {
        let b = bytes_of(w);
        assert(b[2 * i] == ((w[i] as int) % 256) as u8);
        assert(b[2 * i + 1] == ((w[i] as int) / 256) as u8);
    }
    assert(words_of(bytes_of(w)) =~= w);
}

/// Sorting an already sorted word sequence leaves it unchanged.
pub proof fn lemma_sort_of_sorted(w: Seq<u16>)
    requires
        sorted_by(w, word_order()),
    ensures
        w.sort_by(word_order()) == w,
{
    lemma_word_order_total();
    w.lemma_sort_by_ensures(word_order());
    lemma_sorted_unique(w.sort_by(word_order()), w, word_order());
    assert(w.sort_by(word_order()) =~= w);
}

/// Law: canonicalization is idempotent. A digest already in canonical form
/// canonicalizes to itself.
pub proof fn lemma_canonicalize_idempotent(d: Seq<u8>)
    requires
        d.len() == 16,
    ensures
        canon_spec(canon_spec(d)) == canon_spec(d),
{
    broadcast use vstd::seq_lib::group_to_multiset_ensures;

    lemma_word_order_total();
    let w = words_of(d);
    w.lemma_sort_by_ensures(word_order());
    let s = w.sort_by(word_order());
    assert(s.to_multiset().len() == w.to_multiset().len());
    assert(s.len() == 8);
    lemma_words_bytes_roundtrip(s);
    lemma_sort_of_sorted(s);
}

/// Law: canonicalization is invariant under any reordering of the digest's
/// words. Two digests carrying the same multiset of words canonicalize to
/// the same bytes.
pub proof fn lemma_canonicalize_permutation(d1: Seq<u8>, d2: Seq<u8>)
    requires
        d1.len() == 16,
        d2.len() == 16,
        words_of(d1).to_multiset() == words_of(d2).to_multiset(),
    ensures
        canon_spec(d1) == canon_spec(d2),
{
    lemma_word_order_total();
    words_of(d1).lemma_sort_by_ensures(word_order());
    words_of(d2).lemma_sort_by_ensures(word_order());
    lemma_sorted_unique(
        words_of(d1).sort_by(word_order()),
        words_of(d2).sort_by(word_order()),
        word_order(),
    );
}

/// The eight words of a digest, decoded little-endian.
fn digest_words(d: &[u8; 16]) -> (w: Vec<u16>)
    ensures
        w@ == words_of(d@),
{
    let mut w: Vec<u16> = Vec::new();
    let mut i: usize = 0;
    while i < 8
        invariant
            i <= 8,
            w@.len() == i,
            forall|j: int| 0 <= j < i ==> w@[j] == word_at(d@, j),
        decreases 8 - i,
    {
        let lo = d[2 * i] as u16;
        let hi = d[2 * i + 1] as u16;
        w.push(lo + hi * 256);
        i = i + 1;
    }
    proof {
        assert(w@ =~= words_of(d@));
    }
    w
}

/// Insertion sort over the decoded words.
fn sort_words(w: &Vec<u16>) -> (out: Vec<u16>)
    ensures
        out@ == w@.sort_by(word_order()),
        out@.len() == w@.len(),
{
    broadcast use vstd::seq_lib::group_to_multiset_ensures;

    let mut out: Vec<u16> = Vec::new();
    let mut i: usize = 0;
    while i < w.len()
        invariant
            i <= w@.len(),
            out@.len() == i,
            sorted_by(out@, word_order()),
            out@.to_multiset() == w@.take(i as int).to_multiset(),
        decreases w@.len() - i,
    {
        let x = w[i];
        let mut k: usize = 0;
        while k < out.len() && out[k] <= x
            invariant
                k <= out@.len(),
                forall|j: int| 0 <= j < k ==> out@[j] <= x,
            decreases out@.len() - k,
        {
            k = k + 1;
        }
        let ghost prev = out@;
        out.insert(k, x);
        proof {
            assert(out@ == prev.insert(k as int, x));
            assert forall|a: int, b: int|
                0 <= a < b < out@.len() implies word_order()(out@[a], out@[b]) by {
                if b < k {
                    assert(out@[a] == prev[a] && out@[b] == prev[b]);
                } else if a > k {
                    assert(out@[a] == prev[a - 1] && out@[b] == prev[b - 1]);
                } else if a == k {
                    assert(out@[a] == x && out@[b] == prev[b - 1]);
                    assert(k < prev.len());
                    assert(!(prev[k as int] <= x));
                    assert(word_order()(prev[k as int], prev[b - 1]) || b - 1 == k);
                } else if b == k {
                    assert(out@[a] == prev[a] && out@[b] == x);
                } else {
                    // a < k < b
                    assert(out@[a] == prev[a] && out@[b] == prev[b - 1]);
                    assert(k < prev.len());
                    assert(!(prev[k as int] <= x));
                    assert(word_order()(prev[k as int], prev[b - 1]) || b - 1 == k);
                    assert(prev[a] <= x);
                }
            }
            vstd::seq_lib::to_multiset_insert(prev, k as int, x);
            vstd::seq_lib::to_multiset_build(w@.take(i as int), x);
            assert(prev.insert(k as int, x).to_multiset() == prev.to_multiset().insert(x));
            assert(w@.take(i as int + 1) =~= w@.take(i as int).push(w@[i as int]));
            assert(w@.take(i as int).push(x).to_multiset() == w@.take(
                i as int,
            ).to_multiset().insert(x));
            assert(out@.to_multiset() == w@.take(i as int + 1).to_multiset());
        }
        i = i + 1;
    }
    proof {
        assert(w@.take(w@.len() as int) =~= w@);
        lemma_word_order_total();
        w@.lemma_sort_by_ensures(word_order());
        lemma_sorted_unique(out@, w@.sort_by(word_order()), word_order());
        assert(out@ =~= w@.sort_by(word_order()));
    }
    out
}

/// Canonicalizes a digest: decodes its eight little-endian words, sorts
/// them ascending, and re-encodes them.
pub fn canonicalize(digest: [u8; 16]) -> (r: [u8; 16])
    ensures
        r@ == canon_spec(digest@),
{
    let words = digest_words(&digest);
    let sorted_words = sort_words(&words);
    let mut r = [0u8; 16];
    let mut i: usize = 0;
    while i < 8
        invariant
            i <= 8,
            sorted_words@ == words_of(digest@).sort_by(word_order()),
            sorted_words@.len() == 8,
            forall|j: int| 0 <= j < 2 * i ==> r@[j] == canon_spec(digest@)[j],
        decreases 8 - i,
    {
        let v = sorted_words[i];
        r[2 * i] = (v % 256) as u8;
        r[2 * i + 1] = (v / 256) as u8;
        i = i + 1;
    }
    proof {
        assert(r@ =~= canon_spec(digest@));
    }
    r
}

/// Concatenates a challenge and a nonce into a single 40-byte seed for the
/// solver.
pub fn seed(challenge: &[u8; 32], nonce: &[u8; 8]) -> (r: [u8; 40])
    ensures
        r@ == challenge@ + nonce@,
{
    let mut r = [0u8; 40];
    let mut i: usize = 0;
    while i < 32
        invariant
            i <= 32,
            forall|j: int| 0 <= j < i ==> r@[j] == challenge@[j],
        decreases 32 - i,
    {
        r[i] = challenge[i];
        i = i + 1;
    }
    let mut k: usize = 0;
    while k < 8
        invariant
            k <= 8,
            forall|j: int| 0 <= j < 32 ==> r@[j] == challenge@[j],
            forall|j: int| 0 <= j < k ==> r@[32 + j] == nonce@[j],
        decreases 8 - k,
    {
        r[32 + k] = nonce[k];
        k = k + 1;
    }
    proof {
        assert(r@ =~= challenge@ + nonce@);
    }
    r
}

/// The little-endian bytes of a 64-bit nonce.
pub open spec fn nonce_bytes(n: u64) -> Seq<u8> {
    seq![
        ((n as int) % 256) as u8,
        (((n as int) / 256) % 256) as u8,
        (((n as int) / 65536) % 256) as u8,
        (((n as int) / 16777216) % 256) as u8,
        (((n as int) / 4294967296) % 256) as u8,
        (((n as int) / 1099511627776) % 256) as u8,
        (((n as int) / 281474976710656) % 256) as u8,
        (((n as int) / 72057594037927936) % 256) as u8,
    ]
}

/// Encodes a nonce as its eight little-endian bytes.
pub fn nonce_to_le_bytes(n: u64) -> (r: [u8; 8])
    ensures
        r@ == nonce_bytes(n),
{
    let mut r = [0u8; 8];
    r[0] = (n % 256) as u8;
    r[1] = ((n / 256) % 256) as u8;
    r[2] = ((n / 65536) % 256) as u8;
    r[3] = ((n / 16777216) % 256) as u8;
    r[4] = ((n / 4294967296) % 256) as u8;
    r[5] = ((n / 1099511627776) % 256) as u8;
    r[6] = ((n / 281474976710656) % 256) as u8;
    r[7] = ((n / 72057594037927936) % 256) as u8;
    proof {
        assert(r@ =~= nonce_bytes(n));
    }
    r
}

} // verus!
