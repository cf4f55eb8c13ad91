//! Verified core of a small collection of Rust programs: a web service for
//! boards, packages and workshop items (access roles, slugs, SQL statements,
//! validation, sessions, configuration), a line-search tool, and a set of
//! learning exercises (registry, statistics, pig latin, questionnaire, coins).
pub mod api;
pub mod boards;
pub mod common;
pub mod config;
pub mod db;
pub mod error;
pub mod ext_comm;
pub mod learn;
pub mod minigrep;
pub mod package;
pub mod session;
pub mod strings;
pub mod workshop;
