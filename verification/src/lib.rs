//! Core of a URL shortener: whitelist validation of inbound URLs, random
//! identifier generation with collision retry, and an append-only store
//! mapping identifiers to their target URLs.

pub mod alphabet;
pub mod config;
pub mod errors;
pub mod flow;
pub mod laws;
pub mod service;
pub mod host;
pub mod store;
pub mod validate;
