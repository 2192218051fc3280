//! The verified rules of a package registry: the detection of typosquatting
//! among newly published packages, and what the account endpoints decide.

pub mod auth;
pub mod controllers;
pub mod typosquat;
pub mod util;
pub mod worker;
