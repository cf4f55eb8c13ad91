//! Database support: SQL text and the models of stored rows.
pub mod listing;
pub mod sql;
