//! The endpoints of the signed-in user.

pub mod me;
