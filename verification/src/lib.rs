//! Scoped face recognition: the registry, its scoping rules, and the
//! decisions around detection, enrollment and the HTTP API.

pub mod config;
pub mod detection;
pub mod error;
pub mod liveness;
pub mod models;
pub mod photo;
pub mod pipeline;
pub mod recognition;
pub mod score;
pub mod server;
pub mod text;
pub mod types;
