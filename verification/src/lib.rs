//! A verified circuit-creation template engine.
//!
//! Given a declarative YAML template describing a circuit — a set of nodes
//! and the services that run on them — the engine expands it into populated
//! circuit and service builders: it resolves symbolic `$(name)` arguments,
//! mints sequential base-62 service ids, and computes derived peer lists.
//! Each step carries a contract, and the engine returns typed errors, never
//! panics, on inputs it rejects.

pub mod args;
pub mod base62;
pub mod create_services;
pub mod document;
pub mod errors;
pub mod messages;
pub mod rules;
pub mod set_management_type;
pub mod set_metadata;
pub mod store;
pub mod template;
pub mod text;
pub mod yaml;
