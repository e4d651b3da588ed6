//! The contract of a command: its arguments are validated, then it is
//! executed against the store, and whatever comes of either is answered
//! with one frame.

use vstd::prelude::*;
use vstd::string::*;
use crate::config::Config;
use crate::mem::MemDB;
use crate::resp::commands::structs::{Data, StoreView};
use crate::resp::frame::{FrameView, RespFrame};

verus! {

/// The operations that the server knows.
#[derive(Clone, Copy, Debug, PartialEq, Eq)]
pub enum CommandName {
    Ping,
    Echo,
    Get,
    SetValue,
    Rpush,
    Lpush,
    Lrange,
    Llen,
    Lpop,
    Info,
}

impl CommandName {
    /// The name in small letters, as requests are matched against it.
    pub open spec fn text(self) -> Seq<char> {
        match self {
            CommandName::Ping => "ping"@,
            CommandName::Echo => "echo"@,
            CommandName::Get => "get"@,
            CommandName::SetValue => "set"@,
            CommandName::Rpush => "rpush"@,
            CommandName::Lpush => "lpush"@,
            CommandName::Lrange => "lrange"@,
            CommandName::Llen => "llen"@,
            CommandName::Lpop => "lpop"@,
            CommandName::Info => "info"@,
        }
    }

    /// The name in small letters.
    pub fn as_str(self) -> (name: &'static str)
        ensures
            name@ == self.text(),
    {
        match self {
            CommandName::Ping => "ping",
            CommandName::Echo => "echo",
            CommandName::Get => "get",
            CommandName::SetValue => "set",
            CommandName::Rpush => "rpush",
            CommandName::Lpush => "lpush",
            CommandName::Lrange => "lrange",
            CommandName::Llen => "llen",
            CommandName::Lpop => "lpop",
            CommandName::Info => "info",
        }
    }
}

/// Why a command's arguments were turned down before anything was done.
#[derive(Clone, Copy, Debug, PartialEq, Eq)]
pub enum ValidationError {
    /// The command takes another number of arguments.
    WrongArgumentCount(CommandName),
    /// An index, a count or an expiry time is no integer, or one out of range.
    NotAnInteger,
    /// The key is the empty string.
    EmptyKey,
}

impl ValidationError {
    /// The text under which the error is reported to the client.
    pub open spec fn text(self) -> Seq<char> {
        match self {
            ValidationError::WrongArgumentCount(CommandName::Echo) =>
                "ECHO command requires exactly one argument"@,
            ValidationError::WrongArgumentCount(CommandName::Get) => "GET command requires a key"@,
            ValidationError::WrongArgumentCount(CommandName::SetValue) =>
                "SET command requires a key and value"@,
            ValidationError::WrongArgumentCount(name) => "ERR wrong number of arguments for '"@
                + name.text() + "' command"@,
            ValidationError::NotAnInteger => "ERR value is not an integer or out of range"@,
            ValidationError::EmptyKey => "GET command requires a key"@,
        }
    }

    /// The text under which the error is reported to the client.
    pub fn message(&self) -> (text: String)
        ensures
            text@ == self.text(),
    {
        match self {
            ValidationError::WrongArgumentCount(CommandName::Echo) =>
                "ECHO command requires exactly one argument".to_owned(),
            ValidationError::WrongArgumentCount(CommandName::Get) =>
                "GET command requires a key".to_owned(),
            ValidationError::WrongArgumentCount(CommandName::SetValue) =>
                "SET command requires a key and value".to_owned(),
            ValidationError::WrongArgumentCount(name) => {
                let mut text = "ERR wrong number of arguments for '".to_owned();
                text.append(name.as_str());
                text.append("' command");
                text
            },
            ValidationError::NotAnInteger => "ERR value is not an integer or out of range".to_owned(),
            ValidationError::EmptyKey => "GET command requires a key".to_owned(),
        }
    }
}

/// Why a valid command could not be carried out.
#[derive(Clone, Copy, Debug, PartialEq, Eq)]
pub enum ExecutionError {
    /// The key holds a value of the other kind: a list where a string is
    /// asked for, or a string where a list is.
    WrongType,
    /// The store could not be locked. No command reports this itself: it is
    /// for the caller that holds the lock.
    LockUnavailable,
}

impl ExecutionError {
    /// The text under which the error is reported to the client.
    pub open spec fn text(self) -> Seq<char> {
        match self {
            ExecutionError::WrongType =>
                "WRONGTYPE Operation against a key holding the wrong kind of value"@,
            ExecutionError::LockUnavailable => "Unable to acquire lock"@,
        }
    }

    /// The text under which the error is reported to the client.
    pub fn message(&self) -> (text: String)
        ensures
            text@ == self.text(),
    {
        match self {
            ExecutionError::WrongType =>
                "WRONGTYPE Operation against a key holding the wrong kind of value".to_owned(),
            ExecutionError::LockUnavailable => "Unable to acquire lock".to_owned(),
        }
    }
}

/// What executing a command comes to: the reply, and the store it leaves.
pub struct Effect {
    pub reply: Result<FrameView, ExecutionError>,
    pub store: StoreView,
}

/// The value of what an execution returned.
pub open spec fn reply_view(reply: Result<RespFrame, ExecutionError>) -> Result<
    FrameView,
    ExecutionError,
> {
    match reply {
        Ok(frame) => Ok(frame@),
        Err(error) => Err(error),
    }
}

/// One operation of the server with its arguments, as parsed and not yet
/// validated.
///
/// `check` and `effect` say what the command means: whether its arguments
/// are acceptable, and, for a store, the server's report and a time, what
/// it replies and what store it leaves. `validate` and `execute` compute
/// exactly that.
pub trait Command {
    /// Whether the arguments are acceptable, and why not if they are not.
    spec fn check(&self) -> Result<(), ValidationError>;

    /// What the command replies and what store it leaves, when executed on
    /// `store` at time `now` by a server whose report is `report`.
    spec fn effect(&self, store: StoreView, report: Seq<char>, now: u64) -> Effect;

    /// Checks the arguments. Nothing is changed.
    fn validate(&self) -> (outcome: Result<(), ValidationError>)
        ensures
            outcome == self.check(),
    ;

    /// Carries the command out. `now` is the time on the server's clock, in
    /// milliseconds. On an error the store is left as it was.
    fn execute(&self, db: &mut MemDB<Data>, config: &Config, now: u64) -> (reply: Result<
        RespFrame,
        ExecutionError,
    >)
        requires
            self.check() is Ok,
        ensures
            reply_view(reply) == self.effect(old(db).model(), config.report(), now).reply,
            final(db).model() == self.effect(old(db).model(), config.report(), now).store,
    ;
}

/// The frame that answers a command: the reply of its execution where the
/// arguments were acceptable and the execution succeeded, and else an error
/// frame with the error's text.
pub open spec fn answer(
    check: Result<(), ValidationError>,
    reply: Result<FrameView, ExecutionError>,
) -> FrameView {
    match check {
        Err(error) => FrameView::Error(error.text()),
        Ok(_) => match reply {
            Ok(frame) => frame,
            Err(error) => FrameView::Error(error.text()),
        },
    }
}

/// Validates `command`, executes it if it is valid, and answers with one
/// frame either way. A command that is turned down changes nothing.
pub fn dispatch<C: Command>(command: &C, db: &mut MemDB<Data>, config: &Config, now: u64) -> (frame:
    RespFrame)
    ensures
        frame@ == answer(
            command.check(),
            command.effect(old(db).model(), config.report(), now).reply,
        ),
        final(db).model() == if command.check() is Ok {
            command.effect(old(db).model(), config.report(), now).store
        } else {
            old(db).model()
        },
{
    match command.validate() {
        Err(error) => RespFrame::Error(error.message()),
        Ok(_) => match command.execute(db, config, now) {
            Ok(frame) => frame,
            Err(error) => RespFrame::Error(error.message()),
        },
    }
}

} // verus!
