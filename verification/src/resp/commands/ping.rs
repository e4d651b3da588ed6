//! `PING`: the server answers that it is there.

use vstd::prelude::*;
use vstd::string::*;
use crate::config::Config;
use crate::mem::MemDB;
use crate::resp::commands::command::{Command, Effect, ExecutionError, ValidationError};
use crate::resp::commands::structs::{Data, StoreView};
use crate::resp::frame::{FrameView, RespFrame};

verus! {

/// `PING`. It takes no arguments and reads nothing.
#[derive(Clone, Debug, PartialEq, Eq)]
pub struct Ping {}

/// What `PING` replies.
pub open spec fn ping_reply() -> FrameView {
    FrameView::SimpleString("PONG"@)
}

impl Ping {
    /// The reply to every `PING`.
    pub fn reply(&self) -> (frame: RespFrame)
        ensures
            frame@ == ping_reply(),
    {
        RespFrame::SimpleString("PONG".to_owned())
    }
}

impl Command for Ping {
    open spec fn check(&self) -> Result<(), ValidationError> {
        Ok(())
    }

    open spec fn effect(&self, store: StoreView, report: Seq<char>, now: u64) -> Effect {
        Effect { reply: Ok(ping_reply()), store }
    }

    fn validate(&self) -> (outcome: Result<(), ValidationError>) {
        Ok(())
    }

    fn execute(&self, db: &mut MemDB<Data>, config: &Config, now: u64) -> (reply: Result<
        RespFrame,
        ExecutionError,
    >) {
        Ok(self.reply())
    }
}

} // verus!
