//! An in-memory key-value cache with optional per-entry time-to-live,
//! together with the text protocol that drives it over a byte stream.

pub mod cache;
pub mod clock;
pub mod handler;
pub mod laws;
pub mod protocol;
pub mod server;
pub mod store;
