//! A local credential store: named entries (service name, username, secret,
//! location and free-text notes) held in one collection, looked up by name
//! without regard to case, and changed by whole-collection operations.

pub mod cli;
pub mod config;
pub mod generator;
pub mod manager;
