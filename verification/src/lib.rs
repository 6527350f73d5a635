//! Cognitively-inspired simulated annealing teams: a three-level stochastic
//! search engine (agents, teams, cohorts) that is generic over the problem
//! being optimized.

pub mod utilities;
pub mod abm;
pub mod problems;

pub use utilities::parameters::{
    CommunicationStyle, OperationalLearning, Parameters, TemperatureSchedule,
};
pub use utilities::solution::Solution;
pub use abm::agent::{Agent, AgentMethods};
pub use abm::team::{Team, TeamMethods};
pub use abm::cohort::Cohort;
