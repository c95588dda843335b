//! The combinatorial puzzle solver behind the search.
//!
//! The solver is opaque to this library: given a 40-byte seed it returns at
//! most one 16-byte digest, deterministically in the seed. The real solver
//! is the equix puzzle; two stub solvers with the same interface — one that
//! returns a fixed digest for every seed and one that never returns a
//! digest — are provided for dry runs and bounded test harnesses.

use vstd::prelude::*;

verus! {

#[verifier::external_type_specification]
#[verifier::external_body]
pub struct ExSolverMemory(drillx::equix::SolverMemory);

/// The digest the equix solver yields for a seed, if any: the packed bytes
/// of the first solution of the puzzle instance built from that seed. A
/// function of the seed alone.
pub uninterp spec fn equix_digest_of(seed: Seq<u8>) -> Option<Seq<u8>>;

/// Relies on equix::SolverMemory::new: it allocates the solver's scratch
/// space, reusable across solve runs.
#[verifier::external_body]
fn new_solver_memory() -> drillx::equix::SolverMemory {
    drillx::equix::SolverMemory::new()
}

/// Relies on equix (drillx's re-export): building a puzzle instance from a
/// seed and solving it is deterministic in the seed — the solutions found,
/// and their order, depend on the seed alone, while the memory is scratch
/// space overwritten on each run. Seeds whose instance cannot be built
/// yield no digest.
#[verifier::external_body]
fn equix_solve_seed(memory: &mut drillx::equix::SolverMemory, sd: &[u8; 40]) -> (r: Option<
    [u8; 16],
>)
    ensures
        (match r {
            Some(d) => equix_digest_of(sd@) == Some(d@),
            None => equix_digest_of(sd@) is None,
        }),
{
    match drillx::equix::EquiXBuilder::new().runtime(drillx::equix::RuntimeOption::TryCompile).build(
        sd,
    ) {
        Ok(instance) => instance.solve_with_memory(memory).first().map(|s| s.to_bytes()),
        Err(_) => None,
    }
}

/// Which solver a search runs with.
#[derive(Clone, Copy)]
pub enum SolverKind {
    /// The real equix puzzle solver.
    Equix,
    /// A stub that returns the given digest for every seed.
    Constant([u8; 16]),
    /// A stub that never returns a digest.
    Empty,
}

/// The digest a solver of the given kind yields for a seed, if any.
pub open spec fn kind_digest(k: SolverKind, seed: Seq<u8>) -> Option<Seq<u8>> {
    match k {
        SolverKind::Equix => equix_digest_of(seed),
        SolverKind::Constant(d) => Some(d@),
        SolverKind::Empty => None,
    }
}

/// A solver together with its scratch memory, allocated once and reused
/// across all attempts of a search.
pub struct Solver {
    kind: SolverKind,
    memory: drillx::equix::SolverMemory,
}

impl Solver {
    /// The kind of puzzle this solver answers with.
    pub closed spec fn kind(&self) -> SolverKind {
        self.kind
    }

    /// A solver backed by the real equix puzzle.
    pub fn equix() -> (s: Solver)
        ensures
            s.kind() == SolverKind::Equix,
    {
        Solver { kind: SolverKind::Equix, memory: new_solver_memory() }
    }

    /// A stub solver that returns `d` for every seed.
    pub fn constant(d: [u8; 16]) -> (s: Solver)
        ensures
            s.kind() == SolverKind::Constant(d),
    {
        Solver { kind: SolverKind::Constant(d), memory: new_solver_memory() }
    }

    /// A stub solver that never returns a digest.
    pub fn empty() -> (s: Solver)
        ensures
            s.kind() == SolverKind::Empty,
    {
        Solver { kind: SolverKind::Empty, memory: new_solver_memory() }
    }

    /// Asks the solver for the digest of one seed.
    pub fn solve_seed(&mut self, sd: &[u8; 40]) -> (r: Option<[u8; 16]>)
        ensures
            final(self).kind() == old(self).kind(),
            (match r {
                Some(d) => kind_digest(old(self).kind(), sd@) == Some(d@),
                None => kind_digest(old(self).kind(), sd@) is None,
            }),
    {
        match self.kind {
            SolverKind::Equix => equix_solve_seed(&mut self.memory, sd),
            SolverKind::Constant(d) => Some(d),
            SolverKind::Empty => None,
        }
    }
}

} // verus!
