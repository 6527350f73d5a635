//! The agent-based model: agents anneal, teams synchronize and
//! communicate, cohorts replicate.

pub mod agent;
pub mod team;
pub mod cohort;
