//! `ECHO`: the server hands its argument back.

use vstd::prelude::*;
use vstd::string::*;
use vstd::utf8::encode_utf8;
use crate::config::Config;
use crate::mem::MemDB;
use crate::resp::commands::command::{
    Command,
    CommandName,
    Effect,
    ExecutionError,
    ValidationError,
};
use crate::resp::commands::structs::{Data, StoreView};
use crate::resp::frame::{FrameView, RespFrame};

verus! {

/// `ECHO message`.
#[derive(Clone, Debug, PartialEq, Eq)]
pub struct Echo {
    pub args: Vec<String>,
}

impl View for Echo {
    type V = Seq<Seq<char>>;

    /// The arguments.
    open spec fn view(&self) -> Seq<Seq<char>> {
        self.args.deep_view()
    }
}

/// Whether `ECHO` accepts `args`: it takes exactly one argument.
pub open spec fn echo_check(args: Seq<Seq<char>>) -> Result<(), ValidationError> {
    if args.len() == 1 {
        Ok(())
    } else {
        Err(ValidationError::WrongArgumentCount(CommandName::Echo))
    }
}

/// What `ECHO` replies: its argument as a bulk string.
pub open spec fn echo_reply(args: Seq<Seq<char>>) -> FrameView {
    FrameView::BulkString(encode_utf8(args[0]))
}

impl Echo {
    /// The reply: the argument as a bulk string.
    pub fn reply(&self) -> (frame: RespFrame)
        requires
            self.check() is Ok,
        ensures
            frame@ == echo_reply(self@),
    {
        RespFrame::BulkString(self.args[0].as_str().as_bytes_vec())
    }
}

impl Command for Echo {
    open spec fn check(&self) -> Result<(), ValidationError> {
        echo_check(self@)
    }

    /// The argument comes back; the store is not touched.
    open spec fn effect(&self, store: StoreView, report: Seq<char>, now: u64) -> Effect {
        Effect { reply: Ok(echo_reply(self@)), store }
    }

    fn validate(&self) -> (outcome: Result<(), ValidationError>) {
        if self.args.len() != 1 {
            return Err(ValidationError::WrongArgumentCount(CommandName::Echo));
        }
        Ok(())
    }

    fn execute(&self, db: &mut MemDB<Data>, config: &Config, now: u64) -> (reply: Result<
        RespFrame,
        ExecutionError,
    >) {
        Ok(self.reply())
    }
}

} // verus!
