//! Staleness detection and build orchestration for a ninja-compatible build
//! executor.

pub mod graph;
pub mod hash;
pub mod orchestrator;
pub mod run;
pub mod sensitivity;
pub mod text;
