use ore_miner::digest::nonce_to_le_bytes;
use ore_miner::hashing::score_hash;
use ore_miner::solver::Solver;
use ore_miner::worker::hash_with_memory;

#[test]
fn score_hash_is_deterministic() {
    let d: [u8; 16] = [4, 0, 1, 0, 3, 0, 2, 0, 8, 0, 5, 0, 7, 0, 6, 0];
    let nonce = nonce_to_le_bytes(12345);
    let h1 = score_hash(&d, &nonce);
    let h2 = score_hash(&d, &nonce);
    assert_eq!(h1, h2);
}

#[test]
fn score_hash_ignores_word_order() {
    let d1: [u8; 16] = [4, 0, 1, 0, 3, 0, 2, 0, 8, 0, 5, 0, 7, 0, 6, 0];
    let d2: [u8; 16] = [1, 0, 2, 0, 3, 0, 4, 0, 5, 0, 6, 0, 7, 0, 8, 0];
    let nonce = nonce_to_le_bytes(99);
    assert_eq!(score_hash(&d1, &nonce), score_hash(&d2, &nonce));
}

#[test]
fn score_hash_depends_on_nonce() {
    let d: [u8; 16] = [1, 0, 2, 0, 3, 0, 4, 0, 5, 0, 6, 0, 7, 0, 8, 0];
    let h1 = score_hash(&d, &nonce_to_le_bytes(1));
    let h2 = score_hash(&d, &nonce_to_le_bytes(2));
    assert_ne!(h1, h2);
}

#[test]
fn score_hash_matches_external_scorer() {
    // The external verifier re-derives the hash of a submitted solution
    // with drillx; the library's scoring chain must agree bit for bit.
    let d: [u8; 16] = [9, 7, 1, 0, 255, 255, 3, 128, 0, 0, 42, 42, 17, 1, 2, 2];
    for n in [0u64, 1, 77, 1_000_000] {
        let nb = nonce_to_le_bytes(n);
        let ours = score_hash(&d, &nb);
        let theirs = drillx::Solution::new(d, nb).to_hash();
        assert_eq!(ours, theirs.h);
    }
}

#[test]
fn attempt_hash_agrees_with_external_solver_chain() {
    // The whole attempt chain (seed, solve, canonicalize, keccak) must
    // agree with drillx's own implementation of the same construction.
    let challenge = [11u8; 32];
    let mut solver = Solver::equix();
    let mut memory = drillx::equix::SolverMemory::new();
    let mut compared = 0;
    for n in 0u64..24 {
        let nb = nonce_to_le_bytes(n);
        let ours = hash_with_memory(&mut solver, &challenge, &nb);
        let theirs = drillx::hash_with_memory(&mut memory, &challenge, &nb);
        match (ours, theirs) {
            (Some(hp), Ok(h)) => {
                assert_eq!(hp.d, h.d);
                assert_eq!(hp.h, h.h);
                compared += 1;
            }
            (None, Err(_)) => {}
            (a, b) => panic!("solvers disagree at nonce {n}: {:?} vs {:?}", a.map(|x| x.d), b.map(|x| x.d).ok()),
        }
    }
    assert!(compared > 0, "no nonce solved in the sample");
}
