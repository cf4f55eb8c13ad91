//! Shared building blocks of the web service.
pub mod access;
pub mod crud;
pub mod item_fields;
pub mod service_access;
pub mod slug;
pub mod workshop;
pub mod workshop_store;
