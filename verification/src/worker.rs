//! Work that runs in the background, outside any request.

pub mod jobs;
