//! A small demonstration problem: find the origin on a bounded integer
//! line. The quality of a point is the negated distance to the origin, so
//! the unique best solution is the origin itself with quality zero.

use vstd::prelude::*;

use crate::utilities::annealing::Temperature;
use crate::utilities::parameters::SCALE;
use crate::utilities::randomness::RngHandle;
use crate::utilities::solution::Solution;

verus! {

/// Half-width of the search interval, in `SCALE` units: coordinates range
/// over [-10.0, 10.0].
pub const POSITION_BOUND: u64 = 10000000;

/// One candidate point on the line, in `SCALE` units per 1.0.
pub struct Example {
    /// The coordinate, within [-POSITION_BOUND, POSITION_BOUND].
    position: i64,
}

impl Solution for Example {
    /// The negated distance to the origin: zero at the origin, negative
    /// everywhere else.
    closed spec fn quality(&self) -> int {
        if self.position >= 0 {
            -(self.position as int)
        } else {
            self.position as int
        }
    }

    closed spec fn inv(&self) -> bool {
        -(POSITION_BOUND as int) <= self.position <= POSITION_BOUND as int
    }

    open spec fn move_operator_count() -> nat {
        1
    }

    fn number_of_move_operators() -> (n: usize) {
        1
    }

    fn generate_initial_solution(rng: &mut RngHandle) -> (s: Self) {
        let u = rng.next_below(2 * POSITION_BOUND + 1);
        Example { position: (u as i64) - (POSITION_BOUND as i64) }
    }

    fn apply_move_operator(
        &mut self,
        move_index: usize,
        temperature: &Temperature,
        rng: &mut RngHandle,
    ) {
        // Step amplitude in SCALE units: the truncated temperature value
        // plus one, capped at the interval half-width so that one move can
        // reach anywhere but arithmetic stays bounded.
        let coarse: u64 = temperature.num / temperature.den;
        let amplitude: u64 = if coarse >= POSITION_BOUND {
            POSITION_BOUND
        } else {
            coarse + 1
        };
        let offset: i64 = (rng.next_below(2 * amplitude + 1) as i64) - (amplitude as i64);
        let moved: i64 = self.position + offset;
        let bound: i64 = POSITION_BOUND as i64;
        self.position = if moved > bound {
            bound
        } else if moved < -bound {
            -bound
        } else {
            moved
        };
    }

    fn get_quality_scalar(&self) -> (q: i64) {
        if self.position >= 0 {
            -self.position
        } else {
            self.position
        }
    }

    fn duplicate(&self) -> (c: Self) {
        Example { position: self.position }
    }
}

} // verus!
