//! `INFO`: the server's report about itself.

use vstd::prelude::*;
use vstd::string::*;
use vstd::utf8::encode_utf8;
use crate::config::Config;
use crate::mem::MemDB;
use crate::resp::commands::command::{Command, Effect, ExecutionError, ValidationError};
use crate::resp::commands::structs::{Data, StoreView};
use crate::resp::frame::{FrameView, RespFrame};

verus! {

/// `INFO`. It takes no arguments and never reads the store.
#[derive(Clone, Debug, PartialEq, Eq)]
pub struct InfoCommand;

/// What `INFO` replies for a server whose report is `report`: the report
/// as one bulk string.
pub open spec fn info_reply(report: Seq<char>) -> FrameView {
    FrameView::BulkString(encode_utf8(report))
}

impl InfoCommand {
    /// The command.
    pub fn new() -> (command: Self)
        ensures
            command == InfoCommand,
    {
        InfoCommand {}
    }

    /// The reply: the server's report as one bulk string.
    pub fn reply(&self, config: &Config) -> (frame: RespFrame)
        ensures
            frame@ == info_reply(config.report()),
    {
        RespFrame::BulkString(config.to_string().as_str().as_bytes_vec())
    }
}

impl Command for InfoCommand {
    open spec fn check(&self) -> Result<(), ValidationError> {
        Ok(())
    }

    /// The server's report comes back; the store is not touched.
    open spec fn effect(&self, store: StoreView, report: Seq<char>, now: u64) -> Effect {
        Effect { reply: Ok(info_reply(report)), store }
    }

    fn validate(&self) -> (outcome: Result<(), ValidationError>) {
        Ok(())
    }

    fn execute(&self, db: &mut MemDB<Data>, config: &Config, now: u64) -> (reply: Result<
        RespFrame,
        ExecutionError,
    >) {
        Ok(self.reply(config))
    }
}

} // verus!
