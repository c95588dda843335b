use ore_miner::digest::canonicalize;
use ore_miner::digest::nonce_to_le_bytes;
use ore_miner::digest::seed;

#[test]
fn canonicalize_sorts_words_ascending() {
    // words (little-endian): 0x0201, 0x0102, then six zero words
    let d: [u8; 16] = [1, 2, 2, 1, 0, 0, 0, 0, 0, 0, 0, 0, 0, 0, 0, 0];
    let c = canonicalize(d);
    assert_eq!(c, [0, 0, 0, 0, 0, 0, 0, 0, 0, 0, 0, 0, 2, 1, 1, 2]);
}

#[test]
fn canonicalize_already_sorted_is_identity() {
    let d: [u8; 16] = [1, 0, 2, 0, 3, 0, 4, 0, 5, 0, 6, 0, 7, 0, 8, 0];
    assert_eq!(canonicalize(d), d);
}

#[test]
fn canonicalize_is_idempotent() {
    let d: [u8; 16] = [9, 7, 1, 0, 255, 255, 3, 128, 0, 0, 42, 42, 17, 1, 2, 2];
    let once = canonicalize(d);
    let twice = canonicalize(once);
    assert_eq!(once, twice);
}

#[test]
fn canonicalize_ignores_word_order() {
    // the same eight words in two different orders
    let d1: [u8; 16] = [1, 0, 2, 0, 3, 0, 4, 0, 5, 0, 6, 0, 7, 0, 8, 0];
    let d2: [u8; 16] = [8, 0, 7, 0, 6, 0, 5, 0, 4, 0, 3, 0, 2, 0, 1, 0];
    assert_eq!(canonicalize(d1), canonicalize(d2));
    let d3: [u8; 16] = [3, 0, 1, 0, 2, 0, 4, 0, 8, 0, 6, 0, 5, 0, 7, 0];
    assert_eq!(canonicalize(d1), canonicalize(d3));
}

#[test]
fn seed_concatenates_challenge_and_nonce() {
    let mut challenge = [0u8; 32];
    for (i, b) in challenge.iter_mut().enumerate() {
        *b = i as u8;
    }
    let nonce: [u8; 8] = [9, 8, 7, 6, 5, 4, 3, 2];
    let s = seed(&challenge, &nonce);
    assert_eq!(&s[..32], &challenge[..]);
    assert_eq!(&s[32..], &nonce[..]);
}

#[test]
fn nonce_bytes_match_std_encoding() {
    for n in [0u64, 1, 255, 256, 0x0102030405060708, u64::MAX, u64::MAX / 7] {
        assert_eq!(nonce_to_le_bytes(n), n.to_le_bytes());
    }
}

#[test]
fn canonicalize_handles_extreme_words() {
    // words 0xFFFF, 0x0000, 0x8000, 0x7FFF and four 0x0001 words
    let d: [u8; 16] = [255, 255, 0, 0, 0, 128, 255, 127, 1, 0, 1, 0, 1, 0, 1, 0];
    let c = canonicalize(d);
    assert_eq!(
        c,
        [0, 0, 1, 0, 1, 0, 1, 0, 1, 0, 255, 127, 0, 128, 255, 255]
    );
}
