//! Orchestration logic: `.env` handling and dependency ordering.

pub mod env;
pub mod graph;
pub mod names;
pub mod deps;
pub mod steps;
