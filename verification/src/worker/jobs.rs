//! The background jobs.

pub mod typosquat;
