//! A migration ledger and a value marshalling layer for SQLite databases.
//!
//! The library keeps an append-only, tamper-evident history of the SQL
//! migrations applied to a database, and converts between a dynamic value
//! model (null, integer, real, text, byte array) and the values that SQLite
//! binds and returns.
pub mod commands;
pub mod error;
pub mod fingerprint;
pub mod ledger;
mod store;
pub mod value;
