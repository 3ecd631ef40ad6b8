//! An in-memory key-value store with lazy expiration, a line-delimited JSON
//! request format, and the per-connection decisions of its server.
pub mod connection;
pub mod executor;
pub mod json;
pub mod laws;
pub mod pattern;
pub mod request;
pub mod store;
