//! An in-memory, multi-database key-value store with a Redis-style command
//! protocol and an append-only command log.
//!
//! Every item of this crate is verified with Verus. Contracts are stated over
//! mathematical views: text is a `Seq<char>`, a database is a `Map` from keys
//! to entries, the store is a `Seq` of databases.

pub mod aof;
pub mod command;
pub mod config;
pub mod engine;
pub mod laws;
pub mod number;
pub mod registry;
pub mod resp;
pub mod session;
pub mod store;
pub mod text;
pub mod value;
