use ore_miner::digest::nonce_to_le_bytes;
use ore_miner::hashing::score_hash;
use ore_miner::round::effective_workers;
use ore_miner::round::exceeds_available;
use ore_miner::round::run_round;
use ore_miner::round::RoundError;
use ore_miner::solver::Solver;
use ore_miner::worker::search_segment;

const STUB_DIGEST: [u8; 16] = [1, 0, 2, 0, 3, 0, 4, 0, 5, 0, 6, 0, 7, 0, 8, 0];

#[test]
fn elapsed_cutoff_with_trivial_floor_returns_first_nonce() {
    // cutoff already elapsed and the floor trivially met: the round stops
    // at its first evaluation and returns the first nonce's solution
    let challenge = [0u8; 32];
    let mut solver = Solver::constant(STUB_DIGEST);
    let r = run_round(&mut solver, &challenge, 0, 0, 1, 1, 1_000);
    let s = r.expect("floor zero must be met by the stub");
    assert_eq!(s.nonce, 0);
    assert_eq!(s.digest, STUB_DIGEST);
    let expected_hash = score_hash(&STUB_DIGEST, &nonce_to_le_bytes(0));
    assert_eq!(s.hash, expected_hash);
    assert_eq!(s.difficulty, drillx::difficulty(expected_hash));
}

#[test]
fn unreachable_floor_reports_floor_unmet() {
    // a 32-byte hash has at most 256 leading zero bits, so a floor of 300
    // can never be met; the attempt budget bounds the run
    let challenge = [0u8; 32];
    let mut solver = Solver::constant(STUB_DIGEST);
    let r = run_round(&mut solver, &challenge, 300, 0, 2, 2, 400);
    assert_eq!(r.unwrap_err(), RoundError::FloorUnmet);
}

#[test]
fn solver_without_candidates_reports_floor_unmet() {
    let challenge = [7u8; 32];
    let mut solver = Solver::empty();
    let r = run_round(&mut solver, &challenge, 0, 0, 1, 1, 200);
    assert_eq!(r.unwrap_err(), RoundError::FloorUnmet);
}

#[test]
fn more_workers_never_find_worse_solutions() {
    // with a deterministic solver, a fixed per-worker budget and a cutoff
    // far away, two workers cover a superset of one worker's nonces
    let challenge = [3u8; 32];
    let mut s1 = Solver::constant(STUB_DIGEST);
    let one = run_round(&mut s1, &challenge, 0, 1_000_000, 1, 4, 200).unwrap();
    let mut s2 = Solver::constant(STUB_DIGEST);
    let two = run_round(&mut s2, &challenge, 0, 1_000_000, 2, 4, 200).unwrap();
    assert!(two.difficulty >= one.difficulty);
}

#[test]
fn equix_round_yields_externally_valid_solution() {
    let challenge = [5u8; 32];
    let mut solver = Solver::equix();
    let s = run_round(&mut solver, &challenge, 0, 0, 1, 1, 64)
        .expect("some nonce in the budget must solve");
    let nb = nonce_to_le_bytes(s.nonce);
    assert!(drillx::is_valid_digest(&challenge, &nb, &s.digest));
    assert_eq!(s.hash, score_hash(&s.digest, &nb));
    assert_eq!(s.difficulty, drillx::difficulty(s.hash));
}

#[test]
fn search_segment_keeps_earliest_best() {
    // over five nonces of a deterministic stub, the worker returns the
    // earliest nonce of maximal difficulty
    let challenge = [9u8; 32];
    let mut solver = Solver::constant(STUB_DIGEST);
    let outcome = search_segment(&mut solver, &challenge, 0, 5, 1_000_000, 0);
    assert_eq!(outcome.attempts, 5);
    let best = outcome.best.expect("every nonce solves");
    let mut expected_nonce = 0u64;
    let mut expected_diff = 0u32;
    let mut seen_any = false;
    for n in 0..5u64 {
        let d = drillx::difficulty(score_hash(&STUB_DIGEST, &nonce_to_le_bytes(n)));
        if !seen_any || d > expected_diff {
            seen_any = true;
            expected_nonce = n;
            expected_diff = d;
        }
    }
    assert_eq!(best.nonce, expected_nonce);
    assert_eq!(best.difficulty, expected_diff);
}

#[test]
fn worker_count_capped_at_available() {
    assert_eq!(effective_workers(8, 4), 4);
    assert_eq!(effective_workers(3, 4), 3);
    assert_eq!(effective_workers(4, 4), 4);
    assert!(exceeds_available(8, 4));
    assert!(!exceeds_available(4, 4));
}

#[test]
fn empty_solver_worker_attempts_full_budget() {
    let challenge = [1u8; 32];
    let mut solver = Solver::empty();
    let outcome = search_segment(&mut solver, &challenge, 10, 7, 1_000_000, 0);
    assert_eq!(outcome.attempts, 7);
    assert!(outcome.best.is_none());
}
