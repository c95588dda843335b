//! Core of a time-boxed proof-of-work search client.
//!
//! A round binds an externally supplied 32-byte challenge to candidate
//! nonces, asks an opaque combinatorial solver for a digest per seed,
//! canonicalizes the digest, scores it with a keccak hash, and keeps the
//! best-scoring candidate found before the cutoff, never finishing a round
//! below the required difficulty floor. A fee policy maps the winning
//! difficulty to a priority-fee tier and compute budget for submission.

pub mod digest;
pub mod hashing;
pub mod solver;
pub mod worker;
pub mod round;
pub mod fee;
