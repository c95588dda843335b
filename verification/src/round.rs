//! The search coordinator.
//!
//! A round receives a challenge, a difficulty floor, a cutoff and a
//! parallelism request, splits the nonce space into one disjoint contiguous
//! range per worker, runs the workers, and folds their local bests into the
//! round's solution by a single scalar comparison — on ties the earlier
//! worker's result is kept. A round never returns a solution below the
//! floor: when no worker's budget found one, it fails with `FloorUnmet` and
//! the caller retries with fresh round parameters.

use vstd::prelude::*;
use vstd::arithmetic::div_mod::lemma_fundamental_div_mod;
use crate::digest::nonce_bytes;
use crate::hashing::score_hash_spec;
use crate::solver::Solver;
use crate::solver::SolverKind;
use crate::worker::best_of_prefix;
use crate::worker::candidate_difficulty;
use crate::worker::candidate_digest;
use crate::worker::candidate_valid;
use crate::worker::meets_floor;
use crate::worker::search_segment;
use crate::worker::Candidate;

verus! {

/// Why a round failed.
#[derive(Clone, Copy, PartialEq, Eq, Debug)]
pub enum RoundError {
    /// No candidate met the difficulty floor before every worker's attempt
    /// budget ran out.
    FloorUnmet,
}

/// The winning solution of a round.
#[derive(Clone, Copy, Debug)]
pub struct Solution {
    pub digest: [u8; 16],
    pub nonce: u64,
    pub hash: [u8; 32],
    pub difficulty: u32,
}

/// The worker count a round runs with: the requested parallelism, capped at
/// the available hardware parallelism.
pub open spec fn effective_workers_spec(requested: u64, available: u64) -> u64 {
    if requested <= available {
        requested
    } else {
        available
    }
}

/// Caps the requested parallelism at what the hardware offers.
pub fn effective_workers(requested: u64, available: u64) -> (r: u64)
    ensures
        r == effective_workers_spec(requested, available),
{
    if requested <= available {
        requested
    } else {
        available
    }
}

/// Whether a parallelism request exceeds what the hardware offers. Reported
/// as a warning; never an error.
pub fn exceeds_available(requested: u64, available: u64) -> (r: bool)
    ensures
        r == (requested > available),
{
    requested > available
}

/// The width of each worker's nonce range when the space is split evenly.
pub open spec fn worker_stride(workers: u64) -> u64
    recommends
        1 <= workers,
{
    (u64::MAX as int / workers as int) as u64
}

/// Where worker `i`'s nonce range starts.
pub open spec fn worker_start(workers: u64, i: u64) -> u64
    recommends
        1 <= workers,
        i < workers,
{
    (worker_stride(workers) as int * i as int) as u64
}

/// The per-worker attempt budget: the requested budget, capped at the
/// stride so no two workers evaluate the same nonce.
pub open spec fn effective_attempts_spec(requested: u64, workers: u64) -> u64 {
    if requested <= worker_stride(workers) {
        requested
    } else {
        worker_stride(workers)
    }
}

/// No candidate among the first `count` nonces of the segment at `start`
/// meets the floor.
#[verifier::opaque]
pub open spec fn segment_below_floor(
    k: SolverKind,
    challenge: Seq<u8>,
    start: u64,
    count: u64,
    floor: u32,
) -> bool {
    match best_of_prefix(k, challenge, start, count as nat) {
        Some(p) => p.1 < floor,
        None => true,
    }
}

/// How a round's solution relates to what its workers searched: worker `j`
/// of `workers` folded the first `counts[j]` nonces of its segment, the
/// solution is one of those folds' results, and no fold beats it.
pub open spec fn round_outcome(
    k: SolverKind,
    challenge: Seq<u8>,
    workers: u64,
    att: u64,
    counts: Seq<u64>,
    s: Solution,
) -> bool {
    &&& counts.len() == workers as int
    &&& forall|j: int| 0 <= j < workers as int ==> 1 <= #[trigger] counts[j] <= att
    &&& exists|j: int|
        0 <= j < workers as int && #[trigger] best_of_prefix(
            k,
            challenge,
            worker_start(workers, j as u64),
            counts[j] as nat,
        ) == Some((s.nonce, s.difficulty as nat))
    &&& forall|j: int|
        0 <= j < workers as int ==> (match #[trigger] best_of_prefix(
            k,
            challenge,
            worker_start(workers, j as u64),
            counts[j] as nat,
        ) {
            Some(p) => p.1 <= s.difficulty as nat,
            None => true,
        })
}

/// A worker whose outcome agrees with its segment's fold and does not meet
/// the floor shows that nothing in that segment prefix does.
proof fn lemma_outcome_below_floor(
    best: Option<Candidate>,
    k: SolverKind,
    challenge: Seq<u8>,
    start: u64,
    count: u64,
    floor: u32,
)
    requires
        crate::worker::outcome_matches(best, k, challenge, start, count as nat),
        !meets_floor(best, floor),
    ensures
        segment_below_floor(k, challenge, start, count, floor),
{
    reveal(crate::round::segment_below_floor);
}

/// Worker `i` of `workers` can search its whole budget without leaving its
/// range or the nonce space.
proof fn lemma_segment_fits(workers: u64, i: u64, att: u64)
    requires
        1 <= workers,
        i < workers,
        1 <= att <= worker_stride(workers),
    ensures
        worker_start(workers, i) as int == worker_stride(workers) as int * i as int,
        worker_start(workers, i) + att - 1 <= u64::MAX,
{
    let s = worker_stride(workers) as int;
    let w = workers as int;
    lemma_fundamental_div_mod(u64::MAX as int, w);
    assert(s * w <= u64::MAX as int) by (nonlinear_arith)
        requires
            s == u64::MAX as int / w,
            1 <= w,
            u64::MAX as int == w * (u64::MAX as int / w) + (u64::MAX as int % w),
            0 <= u64::MAX as int % w,
    ;
    assert(s * (i as int) + s <= s * w) by (nonlinear_arith)
        requires
            0 <= s,
            i as int + 1 <= w,
    ;
}

/// Runs one search round: splits the nonce space over the effective worker
/// count, searches each worker's range, and returns the best candidate
/// found — or `FloorUnmet` when every worker exhausted its budget without
/// reaching the floor. The returned solution always meets the floor, and
/// its digest, hash and difficulty are exactly what the solver and scorer
/// yield for its nonce.
#[verifier::rlimit(100)]
#[verifier::spinoff_prover]
pub fn run_round(
    solver: &mut Solver,
    challenge: &[u8; 32],
    min_difficulty: u32,
    cutoff_seconds: u64,
    parallelism: u64,
    available: u64,
    attempts_per_worker: u64,
) -> (r: Result<Solution, RoundError>)
    requires
        1 <= parallelism,
        1 <= available,
        1 <= attempts_per_worker,
    ensures
        final(solver).kind() == old(solver).kind(),
        (match r {
            Ok(s) => {
                &&& s.difficulty >= min_difficulty
                &&& candidate_digest(old(solver).kind(), challenge@, s.nonce) == Some(s.digest@)
                &&& s.hash@ == score_hash_spec(s.digest@, nonce_bytes(s.nonce))
                &&& s.difficulty as nat == candidate_difficulty(
                    old(solver).kind(),
                    challenge@,
                    s.nonce,
                )
                &&& exists|counts: Seq<u64>|
                    round_outcome(
                        old(solver).kind(),
                        challenge@,
                        effective_workers_spec(parallelism, available),
                        effective_attempts_spec(
                            attempts_per_worker,
                            effective_workers_spec(parallelism, available),
                        ),
                        counts,
                        s,
                    )
            },
            Err(e) => {
                &&& e == RoundError::FloorUnmet
                &&& forall|i: u64|
                    i < effective_workers_spec(parallelism, available)
                        ==> segment_below_floor(
                        old(solver).kind(),
                        challenge@,
                        worker_start(effective_workers_spec(parallelism, available), i),
                        effective_attempts_spec(
                            attempts_per_worker,
                            effective_workers_spec(parallelism, available),
                        ),
                        min_difficulty,
                    )
            },
        }),
{
    let ghost k = solver.kind();
    let workers = effective_workers(parallelism, available);
    let stride = u64::MAX / workers;
    proof {
        assert(1 <= stride) by (nonlinear_arith)
            requires
                stride == u64::MAX as int / workers as int,
                1 <= workers <= u64::MAX,
        ;
    }
    let att = if attempts_per_worker <= stride {
        attempts_per_worker
    } else {
        stride
    };
    let mut best: Option<Candidate> = None;
    let ghost mut counts: Seq<u64> = Seq::empty();
    let mut i: u64 = 0;
    while i < workers
        invariant
            1 <= workers,
            i <= workers,
            solver.kind() == k,
            workers == effective_workers_spec(parallelism, available),
            stride == worker_stride(workers),
            1 <= att,
            att == effective_attempts_spec(attempts_per_worker, workers),
            counts.len() == i as int,
            forall|j: int| 0 <= j < i as int ==> 1 <= #[trigger] counts[j] <= att,
            (match best {
                Some(c) => {
                    &&& candidate_valid(c, k, challenge@)
                    &&& exists|j: int|
                        0 <= j < i as int && #[trigger] best_of_prefix(
                            k,
                            challenge@,
                            worker_start(workers, j as u64),
                            counts[j] as nat,
                        ) == Some((c.nonce, c.difficulty as nat))
                    &&& forall|j: int|
                        0 <= j < i as int ==> (match #[trigger] best_of_prefix(
                            k,
                            challenge@,
                            worker_start(workers, j as u64),
                            counts[j] as nat,
                        ) {
                            Some(p) => p.1 <= c.difficulty as nat,
                            None => true,
                        })
                },
                None => forall|j: int|
                    0 <= j < i as int ==> (#[trigger] best_of_prefix(
                        k,
                        challenge@,
                        worker_start(workers, j as u64),
                        counts[j] as nat,
                    )) is None,
            }),
            !meets_floor(best, min_difficulty) ==> forall|j: u64|
                j < i ==> segment_below_floor(
                    k,
                    challenge@,
                    worker_start(workers, j),
                    att,
                    min_difficulty,
                ),
        decreases workers - i,
    {
        proof {
            lemma_segment_fits(workers, i, att);
        }
        let start = stride * i;
        let outcome = search_segment(
            solver,
            challenge,
            start,
            att,
            cutoff_seconds,
            min_difficulty,
        );
        let ghost prev_best = best;
        match outcome.best {
            Some(c) => {
                let better = match best {
                    None => true,
                    Some(b) => c.difficulty > b.difficulty,
                };
                if better {
                    best = Some(c);
                }
            },
            None => {},
        }
        proof {
            assert(start == worker_start(workers, i));
            let ghost prev_counts = counts;
            counts = counts.push(outcome.attempts);
            let ghost wi = i as int;
            assert(counts[wi] == outcome.attempts);
            assert(forall|j: int| 0 <= j < wi ==> counts[j] == prev_counts[j]);
            let ghost fold_i = best_of_prefix(
                k,
                challenge@,
                worker_start(workers, i),
                outcome.attempts as nat,
            );
            match best {
                None => {
                    assert(fold_i is None);
                    assert forall|j: int|
                        0 <= j < wi + 1 implies (#[trigger] best_of_prefix(
                        k,
                        challenge@,
                        worker_start(workers, j as u64),
                        counts[j] as nat,
                    )) is None by {
                        if j < wi {
                            assert(counts[j] == prev_counts[j]);
                        } else {
                            assert(j as u64 == i);
                        }
                    }
                },
                Some(c) => {
                    assert forall|j: int|
                        0 <= j < wi + 1 implies (match #[trigger] best_of_prefix(
                        k,
                        challenge@,
                        worker_start(workers, j as u64),
                        counts[j] as nat,
                    ) {
                        Some(p) => p.1 <= c.difficulty as nat,
                        None => true,
                    }) by {
                        if j < wi {
                            assert(counts[j] == prev_counts[j]);
                        } else {
                            assert(j as u64 == i);
                        }
                    }
                    if best == prev_best {
                        let j0 = choose|j: int|
                            0 <= j < wi && #[trigger] best_of_prefix(
                                k,
                                challenge@,
                                worker_start(workers, j as u64),
                                prev_counts[j] as nat,
                            ) == Some((c.nonce, c.difficulty as nat));
                        assert(counts[j0] == prev_counts[j0]);
                        assert(best_of_prefix(
                            k,
                            challenge@,
                            worker_start(workers, j0 as u64),
                            counts[j0] as nat,
                        ) == Some((c.nonce, c.difficulty as nat)));
                    } else {
                        assert(outcome.best == Some(c));
                        assert(best_of_prefix(
                            k,
                            challenge@,
                            worker_start(workers, wi as u64),
                            counts[wi] as nat,
                        ) == Some((c.nonce, c.difficulty as nat)));
                    }
                },
            }
            if !meets_floor(best, min_difficulty) {
                assert(!meets_floor(prev_best, min_difficulty));
                assert(!meets_floor(outcome.best, min_difficulty));
                assert(outcome.attempts == att);
                lemma_outcome_below_floor(
                    outcome.best,
                    k,
                    challenge@,
                    start,
                    att,
                    min_difficulty,
                );
            }
        }
        i = i + 1;
    }
    let met = match best {
        Some(b) => b.difficulty >= min_difficulty,
        None => false,
    };
    if met {
        match best {
            Some(c) => {
                let s = Solution {
                    digest: c.digest,
                    nonce: c.nonce,
                    hash: c.hash,
                    difficulty: c.difficulty,
                };
                proof {
                    assert(round_outcome(k, challenge@, workers, att, counts, s));
                }
                Ok(s)
            },
            None => Err(RoundError::FloorUnmet),
        }
    } else {
        Err(RoundError::FloorUnmet)
    }
}

/// Law: searching a longer prefix of the same nonce range never lowers the
/// best difficulty found, and never loses the candidate.
pub proof fn lemma_best_of_prefix_monotone(
    k: SolverKind,
    challenge: Seq<u8>,
    start: u64,
    c1: nat,
    c2: nat,
)
    requires
        c1 <= c2,
    ensures
        (match (best_of_prefix(k, challenge, start, c1), best_of_prefix(k, challenge, start, c2)) {
            (Some(p1), Some(p2)) => p1.1 <= p2.1,
            (Some(_), None) => false,
            _ => true,
        }),
    decreases c2,
{
    reveal_with_fuel(crate::worker::best_of_prefix, 2);
    if c1 < c2 {
        lemma_best_of_prefix_monotone(k, challenge, start, c1, (c2 - 1) as nat);
    }
}

/// The best difficulty over the first `count` segments of a round, zero
/// when none of them holds a candidate.
pub open spec fn round_best(
    k: SolverKind,
    challenge: Seq<u8>,
    stride: u64,
    att: u64,
    count: nat,
) -> nat
    decreases count,
{
    if count == 0 {
        0
    } else {
        let prev = round_best(k, challenge, stride, att, (count - 1) as nat);
        let cur = match best_of_prefix(
            k,
            challenge,
            (stride as int * (count - 1)) as u64,
            att as nat,
        ) {
            Some(p) => p.1,
            None => 0,
        };
        if cur > prev {
            cur
        } else {
            prev
        }
    }
}

/// Law: with the nonce ranges fixed, adding workers never lowers the best
/// difficulty a round can reach — the fold over more segments dominates the
/// fold over fewer.
pub proof fn lemma_round_best_monotone(
    k: SolverKind,
    challenge: Seq<u8>,
    stride: u64,
    att: u64,
    c1: nat,
    c2: nat,
)
    requires
        c1 <= c2,
    ensures
        round_best(k, challenge, stride, att, c1) <= round_best(k, challenge, stride, att, c2),
    decreases c2,
{
    if c1 < c2 {
        lemma_round_best_monotone(k, challenge, stride, att, c1, (c2 - 1) as nat);
    }
}

/// Law: any parallelism reaches at least what a single worker reaches with
/// the same budget. The first worker's range starts at nonce zero whatever
/// the worker count, so the round's fold dominates the single-worker fold.
pub proof fn lemma_parallelism_dominates_single(
    k: SolverKind,
    challenge: Seq<u8>,
    stride: u64,
    att: u64,
    count: nat,
)
    requires
        1 <= count,
    ensures
        round_best(k, challenge, stride, att, count) >= (match best_of_prefix(
            k,
            challenge,
            0,
            att as nat,
        ) {
            Some(p) => p.1,
            None => 0,
        }),
{
    lemma_round_best_monotone(k, challenge, stride, att, 1, count);
}

} // verus!
