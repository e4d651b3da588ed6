//! An in-memory key-value store behind a Redis-like text protocol: the
//! response codec, the request parser, the typed store with lazy expiry and
//! the command set, each with a machine-checked contract.

pub mod config;
pub mod laws;
pub mod mem;
pub mod resp;
pub mod server;
pub mod text;
