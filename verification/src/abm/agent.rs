//! The agent: the fundamental building block of a team. An agent owns one
//! evolving candidate solution and runs the Metropolis accept/reject loop
//! over it, tracking its personal best.

use vstd::prelude::*;

use crate::utilities::annealing::{
    acceptance_probability, is_cooling, temperature_at, Temperature,
};
use crate::utilities::parameters::{OperationalLearning, Parameters, TemperatureSchedule, SCALE};
use crate::utilities::randomness::{multinomial_draw, RngHandle};
use crate::utilities::solution::Solution;

verus! {

/// The adjusted communication weight of pool entry `i` as one agent sees
/// it: the entry's quality plus the quality bias, plus the self bias on
/// the agent's own entry, clamped into the unsigned weight range.
pub open spec fn communication_weight<S: Solution>(
    pool: Seq<S>,
    quality_bias: int,
    self_bias: int,
    own_id: int,
    i: int,
) -> int {
    let raw = pool[i].quality() + quality_bias + (if i == own_id {
        self_bias
    } else {
        0
    });
    if raw < 0 {
        0
    } else if raw > u64::MAX {
        u64::MAX as int
    } else {
        raw
    }
}

/// Whether an adoption respected the weighting: whenever some pool entry
/// carries a positive adjusted weight under the adopting agent's view of
/// the pool, the adopted entry carries a positive adjusted weight too
/// (the uniform fallback is reserved for an all-zero pool).
pub open spec fn adopted_positive_weight<S: Solution>(
    adopted: S,
    pool: Seq<S>,
    quality_bias: int,
    self_bias: int,
    own_id: int,
) -> bool {
    (exists|j: int|
        0 <= j < pool.len() && communication_weight(pool, quality_bias, self_bias, own_id, j)
            > 0) ==> exists|k: int|
        0 <= k < pool.len() && adopted == pool[k] && communication_weight(
            pool,
            quality_bias,
            self_bias,
            own_id,
            k,
        ) > 0
}

/// The operations a team requires of an agent; implement this trait to
/// substitute a custom agent behavior.
pub trait AgentMethods<S: Solution>: Sized + Send {
    /// Whether the agent is well formed.
    spec fn wf(&self) -> bool;

    /// The agent's index within its team.
    spec fn id(&self) -> int;

    /// The agent's iteration counter.
    spec fn iteration(&self) -> int;

    /// The agent's current solution.
    spec fn current(&self) -> S;

    /// The agent's best solution so far.
    spec fn best(&self) -> S;

    /// The configuration record the agent runs with; the agent itself
    /// never mutates it.
    spec fn configuration(&self) -> Parameters;

    /// Generates a new agent with a freshly generated initial solution,
    /// which also becomes its first personal best.
    fn new(id: usize, parameters: Parameters, seed: u64) -> (a: Self)
        ensures
            a.wf(),
            a.id() == id,
            a.iteration() == 1,
            a.best() == a.current(),
            a.configuration() == parameters,
    ;

    /// Advances the agent one step: cool, propose a candidate, decide
    /// acceptance, keep the personal best up to date. The best quality
    /// never decreases; the best is replaced by the current solution
    /// exactly when the current solution improves on it, so afterwards
    /// the recorded best quality is the larger of the two.
    fn iterate(&mut self)
        requires
            old(self).wf(),
            old(self).iteration() < usize::MAX,
        ensures
            final(self).wf(),
            final(self).id() == old(self).id(),
            final(self).iteration() == old(self).iteration() + 1,
            final(self).configuration() == old(self).configuration(),
            final(self).best().quality() >= old(self).best().quality(),
            final(self).best().quality() >= final(self).current().quality(),
            final(self).best() == old(self).best() || final(self).best() == final(self).current(),
            final(self).best().quality() == (if final(self).current().quality() > old(
                self,
            ).best().quality() {
                final(self).current().quality()
            } else {
                old(self).best().quality()
            }),
    ;

    /// The best solution found by the agent so far, as an owned snapshot.
    fn get_best_solution_so_far(&mut self) -> (s: S)
        requires
            old(self).wf(),
        ensures
            *final(self) == *old(self),
            s == old(self).best(),
            s.inv(),
    ;

    /// The agent's current solution, as an owned snapshot.
    fn get_current_solution(&mut self) -> (s: S)
        requires
            old(self).wf(),
        ensures
            *final(self) == *old(self),
            s == old(self).current(),
            s.inv(),
    ;

    /// Adopts one of the pooled rival solutions as the new current
    /// solution, drawn at random with weights biased by quality and by
    /// ownership; the personal best and the iteration counter are
    /// untouched, the adopted value is one of the exact solutions in the
    /// pool, and unless every adjusted weight is zero (the degenerate
    /// pool, which falls back to a uniform draw) the adopted entry's
    /// adjusted weight is positive.
    fn communicate(&mut self, solutions: Vec<S>)
        requires
            old(self).wf(),
            old(self).id() < solutions@.len(),
            forall|i: int| 0 <= i < solutions@.len() ==> #[trigger] solutions@[i].inv(),
        ensures
            final(self).wf(),
            final(self).id() == old(self).id(),
            final(self).iteration() == old(self).iteration(),
            final(self).configuration() == old(self).configuration(),
            final(self).best() == old(self).best(),
            exists|i: int|
                0 <= i < solutions@.len() && final(self).current() == solutions@[i],
            adopted_positive_weight(
                final(self).current(),
                solutions@,
                old(self).configuration().quality_bias as int,
                old(self).configuration().self_bias as int,
                old(self).id(),
            ),
    ;
}

/// The built-in agent: a single simulated annealer.
pub struct Agent<S: Solution> {
    /// The agent's index within its team.
    id: usize,
    /// The iteration number as tracked by the agent.
    iteration_number: usize,
    /// The temperature the agent currently anneals at.
    temperature: Temperature,
    /// The cached quality scalar of the current solution.
    current_solution_quality: i64,
    /// The current solution of the agent.
    current_solution: S,
    /// The cached quality scalar of the best solution so far.
    best_quality_so_far: i64,
    /// The best solution found so far, owned by value.
    best_solution_so_far: S,
    /// The configuration the agent runs with.
    parameters: Parameters,
    /// The agent's own random source.
    rng: RngHandle,
}

impl<S: Solution> Agent<S> {
    /// The temperature the agent currently anneals at.
    pub closed spec fn current_temperature(&self) -> Temperature {
        self.temperature
    }

    /// The temperature schedule the agent cools by.
    pub closed spec fn schedule(&self) -> TemperatureSchedule {
        self.parameters.temperature_schedule
    }

    /// The iteration number the agent will run next.
    pub fn get_iteration_number(&self) -> (n: usize)
        ensures
            n == self.iteration(),
    {
        self.iteration_number
    }

    /// The cached quality scalar of the best solution so far.
    pub fn get_best_quality_so_far(&self) -> (q: i64)
        requires
            self.wf(),
        ensures
            q == self.best().quality(),
    {
        self.best_quality_so_far
    }

    /// Recomputes the temperature from the configured schedule and the
    /// current iteration count; without a schedule the temperature keeps
    /// its previous value.
    fn update_temperature(&mut self)
        requires
            old(self).wf(),
        ensures
            final(self).wf(),
            final(self).id == old(self).id,
            final(self).iteration_number == old(self).iteration_number,
            final(self).current_solution == old(self).current_solution,
            final(self).current_solution_quality == old(self).current_solution_quality,
            final(self).best_solution_so_far == old(self).best_solution_so_far,
            final(self).best_quality_so_far == old(self).best_quality_so_far,
            final(self).parameters == old(self).parameters,
            final(self).rng == old(self).rng,
            is_cooling(old(self).parameters.temperature_schedule) ==> final(self).temperature
                == temperature_at(
                old(self).parameters.temperature_schedule,
                old(self).iteration_number as u64,
            ),
            !is_cooling(old(self).parameters.temperature_schedule) ==> final(self).temperature
                == old(self).temperature,
    {
        match self.parameters.temperature_schedule {
            TemperatureSchedule::Triki { initial_temperature, delta: _, dwell: _ } => {
                self.temperature = Temperature {
                    num: initial_temperature,
                    den: self.iteration_number as u64,
                };
            },
            TemperatureSchedule::Cauchy { initial_temperature, delta: _, dwell: _ } => {
                self.temperature = Temperature {
                    num: initial_temperature,
                    den: self.iteration_number as u64,
                };
            },
            TemperatureSchedule::Geometric { initial_temperature, dwell: _ } => {
                self.temperature = Temperature {
                    num: initial_temperature,
                    den: self.iteration_number as u64,
                };
            },
            TemperatureSchedule::NoSchedule => {},
        }
    }

    /// Clones the current solution and applies one move operator to it;
    /// the reference behavior always selects operator zero.
    fn generate_candidate_solution(&mut self) -> (c: S)
        requires
            old(self).wf(),
        ensures
            final(self).wf(),
            final(self).id == old(self).id,
            final(self).iteration_number == old(self).iteration_number,
            final(self).temperature == old(self).temperature,
            final(self).current_solution == old(self).current_solution,
            final(self).current_solution_quality == old(self).current_solution_quality,
            final(self).best_solution_so_far == old(self).best_solution_so_far,
            final(self).best_quality_so_far == old(self).best_quality_so_far,
            final(self).parameters == old(self).parameters,
            c.inv(),
    {
        let _available_operators = S::number_of_move_operators();
        let mut candidate = self.current_solution.duplicate();
        candidate.apply_move_operator(0, &self.temperature, &mut self.rng);
        candidate
    }

    /// The operational-learning hook: a deliberate no-op dispatch point,
    /// kept so a concrete learning rule can later update move-operator
    /// selection weights without changing the agent's control flow.
    fn update_learning(&mut self)
        ensures
            *final(self) == *old(self),
    {
        match &self.parameters.operational_learning {
            OperationalLearning::Multinomial { .. } => {},
            OperationalLearning::Markov { .. } => {},
            OperationalLearning::HiddenMarkov { .. } => {},
            OperationalLearning::NoLearning => {},
        }
    }
}

impl<S: Solution> AgentMethods<S> for Agent<S> {
    /// Well formed: both owned solutions satisfy their invariant, the
    /// cached quality scalars match them, the temperature rational is
    /// valid and the iteration counter has started.
    closed spec fn wf(&self) -> bool {
        &&& self.current_solution.inv()
        &&& self.best_solution_so_far.inv()
        &&& self.current_solution_quality == self.current_solution.quality()
        &&& self.best_quality_so_far == self.best_solution_so_far.quality()
        &&& self.temperature.wf()
        &&& self.iteration_number >= 1
    }

    closed spec fn id(&self) -> int {
        self.id as int
    }

    closed spec fn iteration(&self) -> int {
        self.iteration_number as int
    }

    closed spec fn current(&self) -> S {
        self.current_solution
    }

    closed spec fn best(&self) -> S {
        self.best_solution_so_far
    }

    closed spec fn configuration(&self) -> Parameters {
        self.parameters
    }

    fn new(id: usize, parameters: Parameters, seed: u64) -> (a: Self)
        ensures
            a.current_temperature().is_zero(),
            a.schedule() == parameters.temperature_schedule,
    {
        let mut rng = RngHandle::from_seed(seed);
        let solution = S::generate_initial_solution(&mut rng);
        let quality = solution.get_quality_scalar();
        Agent {
            id,
            iteration_number: 1,
            temperature: Temperature::initial(),
            current_solution_quality: quality,
            best_quality_so_far: quality,
            best_solution_so_far: solution.duplicate(),
            current_solution: solution,
            parameters,
            rng,
        }
    }

    fn iterate(&mut self)
        ensures
            final(self).schedule() == old(self).schedule(),
            is_cooling(old(self).schedule()) ==> final(self).current_temperature()
                == temperature_at(old(self).schedule(), old(self).iteration() as u64),
            !is_cooling(old(self).schedule()) ==> final(self).current_temperature()
                == old(self).current_temperature(),
    {
        // Update temperature
        self.update_temperature();

        // Generate a candidate
        let candidate = self.generate_candidate_solution();
        let candidate_quality = candidate.get_quality_scalar();

        // Metropolis acceptance: an improvement is always adopted; a
        // non-improvement is adopted with probability exp(delta / T).
        if candidate_quality > self.current_solution_quality {
            self.current_solution = candidate;
            self.current_solution_quality = candidate_quality;
        } else {
            let difference: i128 = (candidate_quality as i128) - (
            self.current_solution_quality as i128);
            // Quality differences beyond the scalar range are cut off;
            // their acceptance probability vanishes either way.
            let delta: i64 = if difference < (i64::MIN as i128) {
                i64::MIN
            } else {
                difference as i64
            };
            let probability = acceptance_probability(delta, &self.temperature);
            let draw = self.rng.next_below(SCALE);
            if draw < probability {
                self.current_solution = candidate;
                self.current_solution_quality = candidate_quality;
            }
        }

        self.update_learning();

        // Update best solution
        if self.current_solution_quality > self.best_quality_so_far {
            self.best_solution_so_far = self.current_solution.duplicate();
            self.best_quality_so_far = self.best_solution_so_far.get_quality_scalar();
        }

        // Increment iteration number
        self.iteration_number = self.iteration_number + 1;
    }

    fn get_best_solution_so_far(&mut self) -> (s: S) {
        self.best_solution_so_far.duplicate()
    }

    fn get_current_solution(&mut self) -> (s: S) {
        self.current_solution.duplicate()
    }

    fn communicate(&mut self, solutions: Vec<S>)
        ensures
            final(self).current_temperature() == old(self).current_temperature(),
            final(self).schedule() == old(self).schedule(),
    {
        let ghost pool = solutions@;
        let ghost pool_quality_bias = self.parameters.quality_bias as int;
        let ghost pool_self_bias = self.parameters.self_bias as int;
        let ghost own = self.id as int;

        // Re-weight the pool: every entry earns its quality scalar plus
        // the quality bias, and the agent's own entry earns the self bias
        // on top. Negative weights are clamped to zero, the documented
        // defense for this degenerate numeric state.
        let mut weights: Vec<u64> = Vec::new();
        let count = solutions.len();
        for i in 0..count
            invariant
                count == pool.len(),
                solutions@ == pool,
                weights@.len() == i,
                forall|j: int| 0 <= j < pool.len() ==> #[trigger] pool[j].inv(),
                self.id < pool.len(),
                *self == *old(self),
                pool_quality_bias == self.parameters.quality_bias as int,
                pool_self_bias == self.parameters.self_bias as int,
                own == self.id as int,
                forall|j: int|
                    0 <= j < i ==> #[trigger] weights@[j] == communication_weight(
                        pool,
                        pool_quality_bias,
                        pool_self_bias,
                        own,
                        j,
                    ),
        {
            let quality = solutions[i].get_quality_scalar();
            let mut weight_wide: i128 = (quality as i128) + (self.parameters.quality_bias as i128);
            if i == self.id {
                weight_wide = weight_wide + (self.parameters.self_bias as i128);
            }
            let weight: u64 = if weight_wide < 0 {
                0
            } else if weight_wide > (u64::MAX as i128) {
                u64::MAX
            } else {
                weight_wide as u64
            };
            weights.push(weight);
        }

        // Choose a solution
        let index = multinomial_draw(&mut self.rng, &weights);

        // Extract the chosen design and adopt it
        let mut pool_vec = solutions;
        let chosen = pool_vec.remove(index);
        self.current_solution_quality = chosen.get_quality_scalar();
        self.current_solution = chosen;

        proof {
            assert(0 <= index < pool.len() && self.current_solution == pool[index as int]);
            if exists|j: int|
                0 <= j < pool.len() && communication_weight(
                    pool,
                    pool_quality_bias,
                    pool_self_bias,
                    own,
                    j,
                ) > 0 {
                let j0 = choose|j: int|
                    0 <= j < pool.len() && communication_weight(
                        pool,
                        pool_quality_bias,
                        pool_self_bias,
                        own,
                        j,
                    ) > 0;
                assert(weights@[j0] == communication_weight(
                    pool,
                    pool_quality_bias,
                    pool_self_bias,
                    own,
                    j0,
                ));
                crate::utilities::randomness::lemma_weight_total_element_le(weights@, j0);
                assert(weights@[index as int] > 0);
                assert(adopted_positive_weight(
                    self.current_solution,
                    pool,
                    pool_quality_bias,
                    pool_self_bias,
                    own,
                ));
            } else {
                assert(adopted_positive_weight(
                    self.current_solution,
                    pool,
                    pool_quality_bias,
                    pool_self_bias,
                    own,
                ));
            }
        }
    }
}

} // verus!
