//! Search for vanity key pairs: deterministic candidate generation, weighted
//! prefix/suffix scoring, the conditional "improve if better" update of a
//! target, and the decisions of one search worker.

pub mod display;
pub mod generator;
pub mod scoring;
pub mod target;
pub mod worker;
