//! What the account endpoints decide, apart from the requests they read and
//! the rows they store.

pub mod user;
pub mod util;
