//! Learning exercises: employee registry, statistics, text conversion, a
//! questionnaire and coins.
pub mod coins;
pub mod questions;
pub mod registry;
pub mod sorts;
pub mod stat;
pub mod text_conversion;
