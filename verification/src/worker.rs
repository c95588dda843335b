//! The search worker.
//!
//! A worker owns one solver (with its scratch memory, allocated once) and a
//! contiguous slice of the nonce space. It walks its nonces in order: seed,
//! solve, score, and keep the best-scoring candidate. At a bounded sampling
//! interval it consults the clock: past the cutoff it stops only once its
//! best meets the difficulty floor — the deadline is a soft target, the
//! floor is a hard requirement. An attempt budget bounds the walk when the
//! floor is unreachable within the worker's range.

use vstd::prelude::*;
use crate::digest::nonce_bytes;
use crate::digest::nonce_to_le_bytes;
use crate::digest::seed;
use crate::hashing::difficulty;
use crate::hashing::leading_zero_bits;
use crate::hashing::score_hash;
use crate::hashing::score_hash_spec;
use crate::solver::kind_digest;
use crate::solver::Solver;
use crate::solver::SolverKind;

verus! {

#[verifier::external_type_specification]
#[verifier::external_body]
pub struct ExInstant(std::time::Instant);

/// Relies on std::time::Instant::now: a timestamp for measuring elapsed
/// time.
#[verifier::external_body]
fn start_timer() -> std::time::Instant {
    std::time::Instant::now()
}

/// Relies on std::time::Instant::elapsed: the time since the instant was
/// taken.
#[verifier::external_body]
fn elapsed_since(t: &std::time::Instant) -> core::time::Duration {
    t.elapsed()
}

/// Relies on core::time::Duration::as_secs: the whole seconds of the
/// duration.
#[verifier::external_body]
fn duration_secs(d: &core::time::Duration) -> u64 {
    d.as_secs()
}

/// How many nonces a worker evaluates between clock checks.
pub const TERMINATION_SAMPLE_INTERVAL: u64 = 100;

/// The seed fed to the solver for a challenge and nonce: the challenge
/// bytes followed by the nonce's little-endian bytes.
pub open spec fn seed_bytes(challenge: Seq<u8>, nonce: u64) -> Seq<u8> {
    challenge + nonce_bytes(nonce)
}

/// The digest the solver yields for a challenge and nonce, if any.
pub open spec fn candidate_digest(k: SolverKind, challenge: Seq<u8>, nonce: u64) -> Option<
    Seq<u8>,
> {
    kind_digest(k, seed_bytes(challenge, nonce))
}

/// The difficulty scored for a challenge and nonce: the leading zero bits
/// of the scoring hash of the solver's digest, or zero when the solver
/// yields none.
pub open spec fn candidate_difficulty(k: SolverKind, challenge: Seq<u8>, nonce: u64) -> nat {
    match candidate_digest(k, challenge, nonce) {
        Some(d) => leading_zero_bits(score_hash_spec(d, nonce_bytes(nonce))),
        None => 0,
    }
}

/// One attempt's digest and scoring hash.
#[derive(Clone, Copy)]
pub struct HashPair {
    pub d: [u8; 16],
    pub h: [u8; 32],
}

/// Builds the scoring hash for one (challenge, nonce) attempt: seeds the
/// solver with the challenge and nonce, and scores the digest it yields.
/// Returns nothing when the solver has no solution for this nonce — the
/// caller advances to the next one.
pub fn hash_with_memory(solver: &mut Solver, challenge: &[u8; 32], nonce: &[u8; 8]) -> (r: Option<
    HashPair,
>)
    ensures
        final(solver).kind() == old(solver).kind(),
        (match (r, kind_digest(old(solver).kind(), challenge@ + nonce@)) {
            (Some(hp), Some(d)) => hp.d@ == d && hp.h@ == score_hash_spec(hp.d@, nonce@),
            (None, None) => true,
            _ => false,
        }),
{
    let sd = seed(challenge, nonce);
    match solver.solve_seed(&sd) {
        Some(d) => {
            let h = score_hash(&d, nonce);
            Some(HashPair { d, h })
        },
        None => None,
    }
}

/// A scored candidate solution.
#[derive(Clone, Copy)]
pub struct Candidate {
    pub nonce: u64,
    pub digest: [u8; 16],
    pub hash: [u8; 32],
    pub difficulty: u32,
}

/// A candidate is genuine for a solver kind and challenge: its digest is
/// what the solver yields for its nonce, its hash is the scoring hash of
/// that digest, and its difficulty is that hash's score.
pub open spec fn candidate_valid(c: Candidate, k: SolverKind, challenge: Seq<u8>) -> bool {
    &&& candidate_digest(k, challenge, c.nonce) == Some(c.digest@)
    &&& c.hash@ == score_hash_spec(c.digest@, nonce_bytes(c.nonce))
    &&& c.difficulty as nat == candidate_difficulty(k, challenge, c.nonce)
}

/// The best result over the first `count` nonces from `start`: each solved
/// nonce is taken in order, and the incumbent is replaced only by a
/// strictly higher difficulty — so the earliest of the best-scoring nonces
/// wins.
#[verifier::opaque]
pub open spec fn best_of_prefix(k: SolverKind, challenge: Seq<u8>, start: u64, count: nat) -> Option<
    (u64, nat),
>
    recommends
        start + count <= u64::MAX + 1,
    decreases count,
{
    if count == 0 {
        None
    } else {
        let prev = best_of_prefix(k, challenge, start, (count - 1) as nat);
        let n = (start + count - 1) as u64;
        match candidate_digest(k, challenge, n) {
            None => prev,
            Some(_) => {
                let d = candidate_difficulty(k, challenge, n);
                match prev {
                    None => Some((n, d)),
                    Some(p) => if d > p.1 {
                        Some((n, d))
                    } else {
                        prev
                    },
                }
            },
        }
    }
}

/// Whether a best result meets the difficulty floor: there is a candidate
/// and its difficulty is at least the floor.
pub open spec fn meets_floor(best: Option<Candidate>, floor: u32) -> bool {
    match best {
        Some(c) => c.difficulty >= floor,
        None => false,
    }
}

/// A best result agrees with the fold over a nonce prefix: both are empty,
/// or the candidate carries the fold's nonce and difficulty and is genuine.
pub open spec fn outcome_matches(
    best: Option<Candidate>,
    k: SolverKind,
    challenge: Seq<u8>,
    start: u64,
    count: nat,
) -> bool {
    match (best, best_of_prefix(k, challenge, start, count)) {
        (Some(c), Some(p)) => c.nonce == p.0 && c.difficulty as nat == p.1 && candidate_valid(
            c,
            k,
            challenge,
        ),
        (None, None) => true,
        _ => false,
    }
}

/// What one worker's search returns.
pub struct SearchOutcome {
    /// The best candidate among the attempted nonces, if any nonce solved.
    pub best: Option<Candidate>,
    /// How many consecutive nonces were attempted.
    pub attempts: u64,
}

/// Searches up to `max_attempts` consecutive nonces from `start_nonce` and
/// returns the best-scoring candidate. The worker stops early only when the
/// cutoff has elapsed and its best meets the floor; it stops without the
/// floor only when its attempt budget runs out.
pub fn search_segment(
    solver: &mut Solver,
    challenge: &[u8; 32],
    start_nonce: u64,
    max_attempts: u64,
    cutoff_seconds: u64,
    min_difficulty: u32,
) -> (r: SearchOutcome)
    requires
        1 <= max_attempts,
        start_nonce + max_attempts - 1 <= u64::MAX,
    ensures
        final(solver).kind() == old(solver).kind(),
        1 <= r.attempts <= max_attempts,
        outcome_matches(r.best, old(solver).kind(), challenge@, start_nonce, r.attempts as nat),
        r.attempts < max_attempts ==> meets_floor(r.best, min_difficulty),
{
    proof {
        reveal_with_fuel(crate::worker::best_of_prefix, 2);
    }
    let ghost k = solver.kind();
    let timer = start_timer();
    let mut best: Option<Candidate> = None;
    let mut attempts: u64 = 0;
    loop
        invariant_except_break
            solver.kind() == k,
            1 <= max_attempts,
            start_nonce + max_attempts - 1 <= u64::MAX,
            attempts < max_attempts,
            outcome_matches(best, k, challenge@, start_nonce, attempts as nat),
        ensures
            solver.kind() == k,
            1 <= attempts <= max_attempts,
            outcome_matches(best, k, challenge@, start_nonce, attempts as nat),
            attempts < max_attempts ==> meets_floor(best, min_difficulty),
        decreases max_attempts - attempts,
    {
        let nonce = start_nonce + attempts;
        let nb = nonce_to_le_bytes(nonce);
        let sd = seed(challenge, &nb);
        proof {
            reveal_with_fuel(crate::worker::best_of_prefix, 2);
            assert(sd@ == seed_bytes(challenge@, nonce));
        }
        match solver.solve_seed(&sd) {
            Some(d) => {
                let h = score_hash(&d, &nb);
                let diff = difficulty(&h);
                let improved = match best {
                    None => true,
                    Some(b) => diff > b.difficulty,
                };
                if improved {
                    best = Some(Candidate { nonce, digest: d, hash: h, difficulty: diff });
                }
            },
            None => {},
        }
        attempts = attempts + 1;
        if attempts == max_attempts {
            break ;
        }
        if nonce % TERMINATION_SAMPLE_INTERVAL == 0 {
            let elapsed = duration_secs(&elapsed_since(&timer));
            if elapsed >= cutoff_seconds {
                let met = match best {
                    Some(b) => b.difficulty >= min_difficulty,
                    None => false,
                };
                if met {
                    break ;
                }
            }
        }
    }
    SearchOutcome { best, attempts }
}

} // verus!
