//! HTTP-facing pieces: the session token of a request, validated payloads,
//! and the bodies of answers.
pub mod deserialize;
pub mod results;
pub mod validation;
