//! The wire protocol: response frames, the request parser and the commands.

pub mod commands;
pub mod frame;
pub mod parser;
pub mod writing;
