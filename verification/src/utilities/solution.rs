//! The solution contract: the capability set a problem type must offer to
//! plug into the engine.
//!
//! A solution is comparable by a single fixed-point quality scalar (in
//! `SCALE` units per 1.0 of the problem's own objective), so the required
//! agreement between ordering, quality difference and quality scalar holds
//! by construction: the engine orders solutions by the scalar and takes the
//! quality difference as the difference of scalars.

use vstd::prelude::*;

use crate::utilities::annealing::Temperature;
use crate::utilities::randomness::RngHandle;

verus! {

/// A problem type the engine can optimize. Implementations prove that
/// their move operators and constructors keep values well formed and that
/// the reported quality scalar matches the abstract quality.
pub trait Solution: Sized + Send {
    /// The abstract quality of this solution, in `SCALE` units; higher is
    /// better.
    spec fn quality(&self) -> int;

    /// Whether the value is well formed; established at construction and
    /// preserved by every move operator.
    spec fn inv(&self) -> bool;

    /// How many move operator kinds the problem offers.
    spec fn move_operator_count() -> nat;

    /// The number of move operator kinds; a problem must offer at least
    /// one.
    fn number_of_move_operators() -> (n: usize)
        ensures
            n == Self::move_operator_count(),
            n >= 1,
    ;

    /// Generates a fresh randomized initial solution.
    fn generate_initial_solution(rng: &mut RngHandle) -> (s: Self)
        ensures
            s.inv(),
    ;

    /// Mutates the solution in place along the given move kind, with the
    /// temperature scaling the perturbation magnitude. A move-operator
    /// index out of range is a contract violation and is rejected here,
    /// before any work.
    fn apply_move_operator(&mut self, move_index: usize, temperature: &Temperature, rng: &mut RngHandle)
        requires
            old(self).inv(),
            (move_index as nat) < Self::move_operator_count(),
            temperature.wf(),
        ensures
            final(self).inv(),
    ;

    /// The quality scalar: the read-only projection every comparison and
    /// quality difference is taken over.
    fn get_quality_scalar(&self) -> (q: i64)
        requires
            self.inv(),
        ensures
            q == self.quality(),
    ;

    /// An exact copy of the solution, so that a best-so-far snapshot is
    /// owned by value and never aliased.
    fn duplicate(&self) -> (c: Self)
        requires
            self.inv(),
        ensures
            c == *self,
    ;
}

} // verus!
