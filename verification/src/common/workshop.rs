//! Shapes inside packages.
pub mod shape_service;
