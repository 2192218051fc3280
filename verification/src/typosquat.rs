//! Typosquat detection: similarity checks between a newly published name and
//! the most popular names, the harness that runs them, and the cache that
//! holds the popular names.

pub mod cache;
pub mod checks;
pub mod harness;
pub mod laws;
pub mod names;
pub mod squat;
