//! Line search: find the lines of a text that contain a query, with or
//! without regard to case.
pub mod config;
pub mod search;
