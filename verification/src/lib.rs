//! Authentication and account state store.
//!
//! The store keeps the authoritative account, ban and login-audit state in
//! memory, verified against a mathematical view, and mirrors every mutation
//! to a durable SQLite database through a small set of trusted wrappers.
//! Reads are answered from the in-memory image, so every query compares all
//! of its factors in one atomic lookup against a single consistent state.

pub mod config;
pub mod db;
pub mod errors;
pub mod laws;
pub mod model;
pub mod records;
pub mod storage;
pub mod strutil;
pub mod tables;
pub mod timestamp;
