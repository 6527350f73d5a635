//! The configuration model: enumerated knobs for cooling, learning and
//! communication, together with the `Parameters` record that is threaded
//! read-only through every level of the engine.
//!
//! Real-valued knobs are held in fixed point: an amount of `SCALE` units
//! stands for the real value 1.0, so a field holding `500_000` means 0.5.

use vstd::prelude::*;

verus! {

/// Fixed-point unit: this many integer units stand for the real value 1.0.
pub const SCALE: u64 = 1000000;

/// Temperature schedule options. Every cooling schedule divides its initial
/// temperature by the iteration number; the extra fields are configuration
/// accepted for compatibility that the cooling formula does not read.
#[derive(Debug, Clone, Copy)]
pub enum TemperatureSchedule {
    /// Triki schedule: `initial_temperature / n` at iteration `n`.
    /// The `delta` updating parameter is accepted but unused by the
    /// cooling formula.
    Triki {
        /// Initial temperature, in `SCALE` units per 1.0.
        initial_temperature: u64,
        /// Updating parameter, in `SCALE` units per 1.0 (accepted, unused).
        delta: i64,
        /// Dwell length (accepted, unused).
        dwell: usize,
    },
    /// Cauchy schedule: `initial_temperature / n` at iteration `n`.
    Cauchy {
        /// Initial temperature, in `SCALE` units per 1.0.
        initial_temperature: u64,
        /// Updating parameter, in `SCALE` units per 1.0 (accepted, unused).
        delta: i64,
        /// Dwell length (accepted, unused).
        dwell: usize,
    },
    /// Geometric schedule: `initial_temperature / n` at iteration `n`.
    Geometric {
        /// Initial temperature, in `SCALE` units per 1.0.
        initial_temperature: u64,
        /// Dwell length (accepted, unused).
        dwell: usize,
    },
    /// No schedule: the temperature keeps its previous value.
    NoSchedule,
}

/// Operational-learning options. Every variant is currently a no-op
/// extension point: the engine keeps the dispatch but no variant updates
/// move-operator weights yet.
#[derive(Debug)]
#[allow(inconsistent_fields)]
pub enum OperationalLearning {
    /// Reinforcement over the move set as a multinomial distribution.
    Multinomial {
        /// Learning rate, in `SCALE` units per 1.0.
        learning_rate: i64,
        /// Initial move weights, in `SCALE` units per 1.0.
        initial_learning_matrix: Vec<i64>,
    },
    /// Reinforcement over a sequence-based move set.
    Markov {
        /// Learning rate, in `SCALE` units per 1.0.
        learning_rate: i64,
        /// Initial transition matrix, in `SCALE` units per 1.0.
        initial_learning_matrix: Vec<Vec<i64>>,
    },
    /// Reinforcement over a hidden-Markov move set.
    HiddenMarkov {
        /// Learning rate, in `SCALE` units per 1.0.
        learning_rate: i64,
        /// Initial transition matrix, in `SCALE` units per 1.0.
        initial_transition_matrix: Vec<Vec<i64>>,
        /// Initial emission matrix, in `SCALE` units per 1.0.
        initial_emission_matrix: Vec<Vec<i64>>,
    },
    /// No learning.
    NoLearning,
}

/// The rows of a matrix, as sequences.
pub open spec fn matrix_view(m: Vec<Vec<i64>>) -> Seq<Seq<i64>> {
    m@.map_values(|row: Vec<i64>| row@)
}

impl OperationalLearning {
    /// Whether two learning configurations hold the same values.
    pub open spec fn equiv(self, other: Self) -> bool {
        match (self, other) {
            (
                OperationalLearning::Multinomial { learning_rate: r1, initial_learning_matrix: m1 },
                OperationalLearning::Multinomial { learning_rate: r2, initial_learning_matrix: m2 },
            ) => r1 == r2 && m1@ == m2@,
            (
                OperationalLearning::Markov { learning_rate: r1, initial_learning_matrix: m1 },
                OperationalLearning::Markov { learning_rate: r2, initial_learning_matrix: m2 },
            ) => r1 == r2 && matrix_view(m1) == matrix_view(m2),
            (
                OperationalLearning::HiddenMarkov {
                    learning_rate: r1,
                    initial_transition_matrix: t1,
                    initial_emission_matrix: e1,
                },
                OperationalLearning::HiddenMarkov {
                    learning_rate: r2,
                    initial_transition_matrix: t2,
                    initial_emission_matrix: e2,
                },
            ) => r1 == r2 && matrix_view(t1) == matrix_view(t2) && matrix_view(e1) == matrix_view(
                e2,
            ),
            (OperationalLearning::NoLearning, OperationalLearning::NoLearning) => true,
            _ => false,
        }
    }

    /// Copy the learning configuration field by field.
    pub fn duplicate(&self) -> (c: Self)
        ensures
            c.equiv(*self),
    {
        match self {
            OperationalLearning::Multinomial { learning_rate, initial_learning_matrix } => {
                OperationalLearning::Multinomial {
                    learning_rate: *learning_rate,
                    initial_learning_matrix: copy_row(initial_learning_matrix),
                }
            },
            OperationalLearning::Markov { learning_rate, initial_learning_matrix } => {
                OperationalLearning::Markov {
                    learning_rate: *learning_rate,
                    initial_learning_matrix: copy_matrix(initial_learning_matrix),
                }
            },
            OperationalLearning::HiddenMarkov {
                learning_rate,
                initial_transition_matrix,
                initial_emission_matrix,
            } => {
                OperationalLearning::HiddenMarkov {
                    learning_rate: *learning_rate,
                    initial_transition_matrix: copy_matrix(initial_transition_matrix),
                    initial_emission_matrix: copy_matrix(initial_emission_matrix),
                }
            },
            OperationalLearning::NoLearning => OperationalLearning::NoLearning,
        }
    }
}

/// Communication-style options: when a team interrupts local search to let
/// its agents exchange solutions.
#[derive(Debug)]
pub enum CommunicationStyle {
    /// Communicate with a fixed probability each round.
    ConstantFrequency {
        /// Probability of communication per round, in `SCALE` units per 1.0.
        frequency: u64,
    },
    /// Communicate whenever the iteration number is a multiple of the
    /// interval.
    RegularInterval {
        /// Interval between communication rounds; must be positive.
        interval: usize,
    },
    /// Communicate at the listed iteration numbers.
    ScheduledMeetings {
        /// The iteration numbers at which communication takes place.
        times: Vec<usize>,
    },
    /// Never communicate.
    NoCommunication,
}

impl CommunicationStyle {
    /// Whether two communication configurations hold the same values.
    pub open spec fn equiv(self, other: Self) -> bool {
        match (self, other) {
            (
                CommunicationStyle::ConstantFrequency { frequency: f1 },
                CommunicationStyle::ConstantFrequency { frequency: f2 },
            ) => f1 == f2,
            (
                CommunicationStyle::RegularInterval { interval: i1 },
                CommunicationStyle::RegularInterval { interval: i2 },
            ) => i1 == i2,
            (
                CommunicationStyle::ScheduledMeetings { times: t1 },
                CommunicationStyle::ScheduledMeetings { times: t2 },
            ) => t1@ == t2@,
            (CommunicationStyle::NoCommunication, CommunicationStyle::NoCommunication) => true,
            _ => false,
        }
    }

    /// Whether the configuration is well formed: a regular interval is
    /// positive (the trigger test divides by it) and a frequency is a
    /// probability, so at most 1.0.
    pub open spec fn wf(self) -> bool {
        match self {
            CommunicationStyle::ConstantFrequency { frequency } => frequency <= SCALE,
            CommunicationStyle::RegularInterval { interval } => interval >= 1,
            CommunicationStyle::ScheduledMeetings { times: _ } => true,
            CommunicationStyle::NoCommunication => true,
        }
    }

    /// Copy the communication configuration field by field.
    pub fn duplicate(&self) -> (c: Self)
        ensures
            c.equiv(*self),
            c.wf() == self.wf(),
    {
        match self {
            CommunicationStyle::ConstantFrequency { frequency } => {
                CommunicationStyle::ConstantFrequency { frequency: *frequency }
            },
            CommunicationStyle::RegularInterval { interval } => {
                CommunicationStyle::RegularInterval { interval: *interval }
            },
            CommunicationStyle::ScheduledMeetings { times } => {
                CommunicationStyle::ScheduledMeetings { times: copy_times(times) }
            },
            CommunicationStyle::NoCommunication => CommunicationStyle::NoCommunication,
        }
    }
}

/// Copy a vector of iteration numbers.
fn copy_times(v: &Vec<usize>) -> (r: Vec<usize>)
    ensures
        r@ == v@,
{
    let mut r: Vec<usize> = Vec::new();
    for i in 0..v.len()
        invariant
            r@ == v@.subrange(0, i as int),
    {
        r.push(v[i]);
    }
    assert(v@.subrange(0, v@.len() as int) =~= v@);
    r
}

/// Copy one row of fixed-point weights.
fn copy_row(v: &Vec<i64>) -> (r: Vec<i64>)
    ensures
        r@ == v@,
{
    let mut r: Vec<i64> = Vec::new();
    for i in 0..v.len()
        invariant
            r@ == v@.subrange(0, i as int),
    {
        r.push(v[i]);
    }
    assert(v@.subrange(0, v@.len() as int) =~= v@);
    r
}

/// Copy a matrix of fixed-point weights row by row.
fn copy_matrix(m: &Vec<Vec<i64>>) -> (r: Vec<Vec<i64>>)
    ensures
        matrix_view(r) == matrix_view(*m),
{
    let mut r: Vec<Vec<i64>> = Vec::new();
    for i in 0..m.len()
        invariant
            r@.len() == i,
            forall|j: int| 0 <= j < i ==> r@[j]@ == m@[j]@,
    {
        r.push(copy_row(&m[i]));
    }
    assert(matrix_view(r) =~= matrix_view(*m));
    r
}

/// The immutable-after-construction configuration record shared by every
/// level of the engine.
#[derive(Debug)]
pub struct Parameters {
    /// Number of teams in a cohort.
    pub number_of_teams: usize,
    /// Number of agents on each team.
    pub number_of_agents: usize,
    /// Number of iterations a team runs for.
    pub number_of_iterations: usize,
    /// The temperature schedule agents cool by.
    pub temperature_schedule: TemperatureSchedule,
    /// The operational-learning style (a no-op extension point).
    pub operational_learning: OperationalLearning,
    /// The communication style of each team.
    pub communication: CommunicationStyle,
    /// Additive weight an agent grants its own solution during
    /// communication, in `SCALE` units per 1.0.
    pub self_bias: i64,
    /// Additive weight granted to every solution during communication, in
    /// `SCALE` units per 1.0.
    pub quality_bias: i64,
    /// The satisficing fraction, in `SCALE` units per 1.0; must lie in
    /// [0, 1].
    pub satisficing_fraction: i64,
}

impl Parameters {
    /// Whether two configuration records hold the same values.
    pub open spec fn equiv(self, other: Self) -> bool {
        &&& self.number_of_teams == other.number_of_teams
        &&& self.number_of_agents == other.number_of_agents
        &&& self.number_of_iterations == other.number_of_iterations
        &&& self.temperature_schedule == other.temperature_schedule
        &&& self.operational_learning.equiv(other.operational_learning)
        &&& self.communication.equiv(other.communication)
        &&& self.self_bias == other.self_bias
        &&& self.quality_bias == other.quality_bias
        &&& self.satisficing_fraction == other.satisficing_fraction
    }

    /// Whether the record is well formed: the rosters are non-empty, the
    /// satisficing fraction lies in [0, 1], and the communication style is
    /// itself well formed.
    pub open spec fn wf(self) -> bool {
        &&& self.number_of_teams >= 1
        &&& self.number_of_agents >= 1
        &&& 0 <= self.satisficing_fraction <= SCALE
        &&& self.communication.wf()
    }

    /// Checks that all values in the record are valid: the satisficing
    /// fraction must be a fraction, so it must lie in [0, 1].
    pub fn verify(&self) -> (ok: bool)
        ensures
            ok <==> 0 <= self.satisficing_fraction <= SCALE,
    {
        0 <= self.satisficing_fraction && self.satisficing_fraction <= SCALE as i64
    }

    /// Copy the whole record field by field.
    pub fn duplicate(&self) -> (c: Self)
        ensures
            c.equiv(*self),
            c.wf() == self.wf(),
    {
        Parameters {
            number_of_teams: self.number_of_teams,
            number_of_agents: self.number_of_agents,
            number_of_iterations: self.number_of_iterations,
            temperature_schedule: self.temperature_schedule,
            operational_learning: self.operational_learning.duplicate(),
            communication: self.communication.duplicate(),
            self_bias: self.self_bias,
            quality_bias: self.quality_bias,
            satisficing_fraction: self.satisficing_fraction,
        }
    }

    /// The values used by the historical simulated annealing teams study:
    /// a hot Triki schedule with communication every round and no biases.
    pub fn hsat() -> (p: Self)
        ensures
            p.temperature_schedule == (TemperatureSchedule::Triki {
                initial_temperature: (100 * SCALE) as u64,
                delta: 50000i64,
                dwell: 50usize,
            }),
            p.communication == (CommunicationStyle::RegularInterval { interval: 1usize }),
            p.operational_learning == OperationalLearning::NoLearning,
            p.self_bias == 0,
            p.quality_bias == 0,
            p.satisficing_fraction == 0,
            p.number_of_teams == 1,
            p.number_of_agents == 3,
            p.number_of_iterations == 100,
            p.wf(),
    {
        Parameters {
            temperature_schedule: TemperatureSchedule::Triki {
                initial_temperature: 100 * SCALE,
                delta: 50000,
                dwell: 50,
            },
            communication: CommunicationStyle::RegularInterval { interval: 1 },
            self_bias: 0,
            quality_bias: 0,
            satisficing_fraction: 0,
            ..Parameters::default()
        }
    }

    /// Replace the team count.
    pub fn with_teams(self, number_of_teams: usize) -> (p: Self)
        ensures
            p == (Parameters { number_of_teams, ..self }),
    {
        Parameters { number_of_teams, ..self }
    }

    /// Replace the agent count.
    pub fn with_agents(self, number_of_agents: usize) -> (p: Self)
        ensures
            p == (Parameters { number_of_agents, ..self }),
    {
        Parameters { number_of_agents, ..self }
    }

    /// Replace the iteration count.
    pub fn with_iters(self, number_of_iterations: usize) -> (p: Self)
        ensures
            p == (Parameters { number_of_iterations, ..self }),
    {
        Parameters { number_of_iterations, ..self }
    }
}

impl Default for Parameters {
    /// One team of three agents, one hundred iterations, geometric cooling
    /// from 1.0, no learning, no communication, both biases 1.0 and a
    /// satisficing fraction of one half.
    fn default() -> (p: Self)
        ensures
            p.number_of_teams == 1,
            p.number_of_agents == 3,
            p.number_of_iterations == 100,
            p.temperature_schedule == (TemperatureSchedule::Geometric {
                initial_temperature: SCALE,
                dwell: 1usize,
            }),
            p.operational_learning == OperationalLearning::NoLearning,
            p.communication == CommunicationStyle::NoCommunication,
            p.self_bias == SCALE,
            p.quality_bias == SCALE,
            p.satisficing_fraction == SCALE / 2,
            p.wf(),
    {
        Parameters {
            number_of_teams: 1,
            number_of_agents: 3,
            number_of_iterations: 100,
            temperature_schedule: TemperatureSchedule::Geometric {
                initial_temperature: SCALE,
                dwell: 1,
            },
            operational_learning: OperationalLearning::NoLearning,
            communication: CommunicationStyle::NoCommunication,
            self_bias: SCALE as i64,
            quality_bias: SCALE as i64,
            satisficing_fraction: (SCALE / 2) as i64,
        }
    }
}

} // verus!
