//! Shared infrastructure for the search engine: the configuration model,
//! random sources, annealing arithmetic, and the solution contract.

pub mod parameters;
pub mod randomness;
pub mod annealing;
pub mod solution;
