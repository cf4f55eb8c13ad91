//! Packages: storage statements and the service rules around them.
pub mod package_service;
pub mod package_store;
