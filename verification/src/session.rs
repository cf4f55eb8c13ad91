//! User sessions: sign-in by a code sent to an address, confirmation, tokens.
pub mod session_jwt;
pub mod session_service;
pub mod session_store;
