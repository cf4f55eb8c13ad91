//! Boards: storage statements and the service rules around them.
pub mod board_service;
pub mod board_store;
