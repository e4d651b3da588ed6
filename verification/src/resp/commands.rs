//! The command set and the contract that every command meets.

pub mod command;
pub mod echo;
pub mod info;
pub mod kv;
pub mod list;
pub mod ping;
pub mod request;
pub mod structs;

pub use command::Command;
pub use echo::Echo;
pub use info::InfoCommand;
pub use kv::{GetCommand, SetCommand};
pub use list::{ListGetCommand, ListLenCommand, ListPopCommand, ListPushCommand};
pub use ping::Ping;
pub use request::Request;
